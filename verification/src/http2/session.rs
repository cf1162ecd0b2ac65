//! Who hears of what arrives on a connection.
use std::collections::HashMap;
use vstd::prelude::*;

use super::frame::StreamId;
use super::{Header, HeaderView};

verus! {

broadcast use vstd::std_specs::hash::group_hash_axioms;

/// What a connection tells about the frames that it receives.
pub trait Session: View {
    /// What becomes of a session when octets arrive for a stream.
    spec fn after_data(before: Self::V, stream_id: StreamId, data: Seq<u8>) -> Self::V;

    /// What becomes of a session when headers arrive for a stream.
    spec fn after_headers(
        before: Self::V,
        stream_id: StreamId,
        headers: Seq<HeaderView>,
    ) -> Self::V;

    /// What becomes of a session when the peer ends a stream.
    spec fn after_end(before: Self::V, stream_id: StreamId) -> Self::V;

    /// Octets arrived for a stream. Padding is not among them.
    fn new_data_chunk(&mut self, stream_id: StreamId, data: &[u8])
        ensures
            final(self)@ == Self::after_data(old(self)@, stream_id, data@),
    ;

    /// Headers arrived for a stream. They are decoded.
    fn new_headers(&mut self, stream_id: StreamId, headers: Vec<Header>)
        ensures
            final(self)@ == Self::after_headers(
                old(self)@,
                stream_id,
                super::header_list(headers@),
            ),
    ;

    /// The peer ended a stream.
    fn end_of_stream(&mut self, stream_id: StreamId)
        ensures
            final(self)@ == Self::after_end(old(self)@, stream_id),
    ;
}

/// What arrived on one stream.
#[derive(Debug)]
pub struct DefaultStream {
    pub headers: Option<Vec<Header>>,
    pub body: Vec<u8>,
    /// Whether the peer ended the stream.
    pub closed: bool,
}

/// The value of a [`DefaultStream`].
pub struct StreamView {
    pub headers: Option<Seq<HeaderView>>,
    pub body: Seq<u8>,
    pub closed: bool,
}

impl View for DefaultStream {
    type V = StreamView;

    open spec fn view(&self) -> StreamView {
        StreamView {
            headers: match self.headers {
                Some(headers) => Some(super::header_list(headers@)),
                None => None,
            },
            body: self.body@,
            closed: self.closed,
        }
    }
}

impl StreamView {
    /// A stream on which nothing arrived yet.
    pub open spec fn fresh() -> StreamView {
        StreamView { headers: None, body: Seq::empty(), closed: false }
    }
}

/// A session that keeps what arrives on each of its streams, and ignores what
/// arrives on other streams.
pub struct DefaultSession {
    streams: HashMap<StreamId, DefaultStream>,
}

impl View for DefaultSession {
    type V = Map<StreamId, StreamView>;

    closed spec fn view(&self) -> Map<StreamId, StreamView> {
        self.streams@.map_values(|stream: DefaultStream| stream@)
    }
}

impl DefaultSession {
    /// Creates a session without streams.
    pub fn new() -> (session: DefaultSession)
        ensures
            session@ == Map::<StreamId, StreamView>::empty(),
    {
        let session = DefaultSession { streams: HashMap::new() };
        assert(session@ =~= Map::<StreamId, StreamView>::empty());
        session
    }

    /// Adds a stream on which nothing arrived yet. It takes the place of a
    /// stream with the same identifier.
    pub fn new_stream(&mut self, stream_id: StreamId)
        ensures
            final(self)@ == old(self)@.insert(stream_id, StreamView::fresh()),
    {
        let stream = DefaultStream { headers: None, body: Vec::new(), closed: false };
        self.streams.insert(stream_id, stream);
        assert(self@ =~= old(self)@.insert(stream_id, StreamView::fresh()));
    }

    /// Returns the stream with the given identifier.
    pub fn get_stream(&self, stream_id: StreamId) -> (stream: Option<&DefaultStream>)
        ensures
            match stream {
                Some(s) => self@.contains_key(stream_id) && self@[stream_id] == s@,
                None => !self@.contains_key(stream_id),
            },
    {
        self.streams.get(&stream_id)
    }
}

impl Session for DefaultSession {
    open spec fn after_data(
        before: Map<StreamId, StreamView>,
        stream_id: StreamId,
        data: Seq<u8>,
    ) -> Map<StreamId, StreamView> {
        if before.contains_key(stream_id) {
            let stream = before[stream_id];
            before.insert(stream_id, StreamView { body: stream.body + data, ..stream })
        } else {
            before
        }
    }

    open spec fn after_headers(
        before: Map<StreamId, StreamView>,
        stream_id: StreamId,
        headers: Seq<HeaderView>,
    ) -> Map<StreamId, StreamView> {
        if before.contains_key(stream_id) {
            before.insert(
                stream_id,
                StreamView { headers: Some(headers), ..before[stream_id] },
            )
        } else {
            before
        }
    }

    open spec fn after_end(
        before: Map<StreamId, StreamView>,
        stream_id: StreamId,
    ) -> Map<StreamId, StreamView> {
        if before.contains_key(stream_id) {
            before.insert(stream_id, StreamView { closed: true, ..before[stream_id] })
        } else {
            before
        }
    }

    fn new_data_chunk(&mut self, stream_id: StreamId, data: &[u8]) {
        if let Some(mut stream) = self.streams.remove(&stream_id) {
            let ghost before = stream@;
            stream.body.extend_from_slice(data);
            assert(stream.body@ =~= before.body + data@);
            self.streams.insert(stream_id, stream);
        }
        assert(self@ =~= Self::after_data(old(self)@, stream_id, data@));
    }

    fn new_headers(&mut self, stream_id: StreamId, headers: Vec<Header>) {
        let ghost list = super::header_list(headers@);
        if let Some(mut stream) = self.streams.remove(&stream_id) {
            stream.headers = Some(headers);
            self.streams.insert(stream_id, stream);
        }
        assert(self@ =~= Self::after_headers(old(self)@, stream_id, list));
    }

    fn end_of_stream(&mut self, stream_id: StreamId) {
        if let Some(mut stream) = self.streams.remove(&stream_id) {
            stream.closed = true;
            self.streams.insert(stream_id, stream);
        }
        assert(self@ =~= Self::after_end(old(self)@, stream_id));
    }
}

/// What arrives on one stream changes no other stream, and makes no stream
/// come or go.
pub proof fn law_streams_are_separate(
    before: Map<StreamId, StreamView>,
    stream_id: StreamId,
    other: StreamId,
    data: Seq<u8>,
    headers: Seq<HeaderView>,
)
    requires
        other != stream_id,
    ensures
        DefaultSession::after_data(before, stream_id, data).dom() == before.dom(),
        DefaultSession::after_headers(before, stream_id, headers).dom() == before.dom(),
        DefaultSession::after_end(before, stream_id).dom() == before.dom(),
        before.contains_key(other) ==> {
            &&& DefaultSession::after_data(before, stream_id, data)[other] == before[other]
            &&& DefaultSession::after_headers(before, stream_id, headers)[other] == before[other]
            &&& DefaultSession::after_end(before, stream_id)[other] == before[other]
        },
{
    assert(DefaultSession::after_data(before, stream_id, data).dom() =~= before.dom());
    assert(DefaultSession::after_headers(before, stream_id, headers).dom() =~= before.dom());
    assert(DefaultSession::after_end(before, stream_id).dom() =~= before.dom());
}

/// Two chunks of octets that arrive one after the other are as good as both in
/// one chunk.
pub proof fn law_chunks_add_up(
    before: Map<StreamId, StreamView>,
    stream_id: StreamId,
    first: Seq<u8>,
    second: Seq<u8>,
)
    ensures
        DefaultSession::after_data(
            DefaultSession::after_data(before, stream_id, first),
            stream_id,
            second,
        ) == DefaultSession::after_data(before, stream_id, first + second),
{
    if before.contains_key(stream_id) {
        let body = before[stream_id].body;
        assert(body + first + second =~= body + (first + second));
        assert(DefaultSession::after_data(
            DefaultSession::after_data(before, stream_id, first),
            stream_id,
            second,
        ) =~= DefaultSession::after_data(before, stream_id, first + second));
    }
}

/// The value of a stream is what is kept of it.
pub proof fn law_stream_value(stream: DefaultStream)
    ensures
        stream@.body == stream.body@,
        stream@.closed == stream.closed,
        stream@.headers is Some <==> stream.headers is Some,
        stream.headers matches Some(headers) ==> stream@.headers == Some(
            super::header_list(headers@),
        ),
{
}

/// On a fresh stream nothing arrived, and its peer did not end it.
pub proof fn law_fresh_stream()
    ensures
        StreamView::fresh().headers is None,
        StreamView::fresh().body.len() == 0,
        !StreamView::fresh().closed,
{
}

/// What a stream of the session makes of what arrives on it: octets are added
/// behind those that are there, headers take the place of earlier ones, the
/// end closes it, and each of the three leaves the other two alone.
pub proof fn law_stream_hears(
    before: Map<StreamId, StreamView>,
    stream_id: StreamId,
    data: Seq<u8>,
    headers: Seq<HeaderView>,
)
    requires
        before.contains_key(stream_id),
    ensures
        ({
            let stream = before[stream_id];
            let after = DefaultSession::after_data(before, stream_id, data)[stream_id];
            &&& after.body == stream.body + data
            &&& after.headers == stream.headers
            &&& after.closed == stream.closed
        }),
        ({
            let stream = before[stream_id];
            let after = DefaultSession::after_headers(before, stream_id, headers)[stream_id];
            &&& after.body == stream.body
            &&& after.headers == Some(headers)
            &&& after.closed == stream.closed
        }),
        ({
            let stream = before[stream_id];
            let after = DefaultSession::after_end(before, stream_id)[stream_id];
            &&& after.body == stream.body
            &&& after.headers == stream.headers
            &&& after.closed
        }),
{
}

/// What arrives on a stream that the session does not have changes nothing.
pub proof fn law_other_streams_are_ignored(
    before: Map<StreamId, StreamView>,
    stream_id: StreamId,
    data: Seq<u8>,
    headers: Seq<HeaderView>,
)
    requires
        !before.contains_key(stream_id),
    ensures
        DefaultSession::after_data(before, stream_id, data) == before,
        DefaultSession::after_headers(before, stream_id, headers) == before,
        DefaultSession::after_end(before, stream_id) == before,
{
}

} // verus!
