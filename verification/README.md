# hyper_wire

What an HTTP client says to a server, and what it makes of the answers, proved
in Verus.

- `src/client/`: requests in the textual versions of HTTP: the address, the
  head, and the way in which the body follows it.
- `src/header.rs`, `src/method.rs`, `src/version.rs`, `src/http.rs`: what a
  head and a body are made of.
- `src/http2/frame/`: the frames of HTTP/2, and their octets.
- `src/http2/http2.rs`: what goes over an HTTP/2 connection, and what becomes
  of what is received.
- `src/http2/session.rs`, `src/http2/utils.rs`: the streams of a connection.
- `src/http2/compression.rs`: header compression, done by the `hpack` crate.
- `app/`: the transport. The library neither reads nor writes; `app/` does
  both, and hands over what it read.

Addresses are parsed by the `url` crate. The functions marked
`external_body` are the calls into `hpack` and `url`; their contracts say what
is taken for granted of the two.
