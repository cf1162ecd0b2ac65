//! What goes over an HTTP/2 connection, and what happens to what comes in.
//!
//! Nothing here reads or writes. A function that has something to send returns
//! it, and one that needs something to be read takes what the read gave.
use vstd::prelude::*;

use super::compression::{
    block_decoded, decode_headers, decoder_limit, decoder_table, encode, encoded, encoder_table,
    law_sound_block, short_strings, CompressionError, DEFAULT_TABLE_SIZE,
};
use super::frame::{
    flag_set, header_parts, unpack_header, DataFlag, DataFrame, DataFrameView, Frame, FrameHeader,
    HeadersFlag, HeadersFrame, HeadersFrameView, HttpSetting, RawFrame, SettingsFrame,
    SettingsFrameView, StreamId, ACK, DATA_FRAME_TYPE, END_HEADERS, END_STREAM, HEADERS_FRAME_TYPE,
    LENGTH_LIMIT, SETTINGS_FRAME_TYPE, STREAM_LIMIT,
};
use super::frame::data::{law_data_meaning, law_data_validity};
use super::frame::headers::{law_headers_meaning, law_headers_validity};
use super::frame::settings::{
    law_settings_frame_meaning, law_settings_frame_validity, settings_octets, settings_parts,
};
use super::frame::{header_octets, law_frame_layout, law_header_meaning};
use super::session::{DefaultSession, Session, StreamView};
use super::{header_list, Header, HeaderView, HttpError, HttpResult, Request};

verus! {

/// A frame of one of the types that a connection can receive.
#[derive(PartialEq, Debug)]
pub enum HttpFrame {
    DataFrame(DataFrame),
    HeadersFrame(HeadersFrame),
    SettingsFrame(SettingsFrame),
}

/// The value of an [`HttpFrame`].
pub enum HttpFrameView {
    DataFrame(DataFrameView),
    HeadersFrame(HeadersFrameView),
    SettingsFrame(SettingsFrameView),
}

impl View for HttpFrame {
    type V = HttpFrameView;

    open spec fn view(&self) -> HttpFrameView {
        match self {
            HttpFrame::DataFrame(frame) => HttpFrameView::DataFrame(frame@),
            HttpFrame::HeadersFrame(frame) => HttpFrameView::HeadersFrame(frame@),
            HttpFrame::SettingsFrame(frame) => HttpFrameView::SettingsFrame(frame@),
        }
    }
}

impl HttpFrameView {
    /// The octets that stand for the frame.
    pub open spec fn octets(self) -> Seq<u8> {
        match self {
            HttpFrameView::DataFrame(frame) => DataFrame::octets(frame),
            HttpFrameView::HeadersFrame(frame) => HeadersFrame::octets(frame),
            HttpFrameView::SettingsFrame(frame) => SettingsFrame::octets(frame),
        }
    }

    /// Whether the parts of the frame agree with each other and fit into their
    /// fields.
    pub open spec fn well_formed(self) -> bool {
        match self {
            HttpFrameView::DataFrame(frame) => DataFrame::well_formed(frame),
            HttpFrameView::HeadersFrame(frame) => HeadersFrame::well_formed(frame),
            HttpFrameView::SettingsFrame(frame) => SettingsFrame::well_formed(frame),
        }
    }
}

/// What a frame header and a payload stand for.
pub enum Meaning {
    /// A frame of a known type.
    Frame(HttpFrameView),
    /// No valid frame, though the type is known.
    Invalid,
    /// A frame of an unknown type.
    Unknown,
}

/// What a frame header and a payload stand for.
pub open spec fn meaning(header: FrameHeader, payload: Seq<u8>) -> Meaning {
    if header.1 == DATA_FRAME_TYPE {
        match DataFrame::parsed(header, payload) {
            Some(frame) => Meaning::Frame(HttpFrameView::DataFrame(frame)),
            None => Meaning::Invalid,
        }
    } else if header.1 == HEADERS_FRAME_TYPE {
        match HeadersFrame::parsed(header, payload) {
            Some(frame) => Meaning::Frame(HttpFrameView::HeadersFrame(frame)),
            None => Meaning::Invalid,
        }
    } else if header.1 == SETTINGS_FRAME_TYPE {
        match SettingsFrame::parsed(header, payload) {
            Some(frame) => Meaning::Frame(HttpFrameView::SettingsFrame(frame)),
            None => Meaning::Invalid,
        }
    } else {
        Meaning::Unknown
    }
}

/// Whether a result tells what a frame header and a payload stand for.
pub open spec fn tells(result: HttpResult<HttpFrame>, meaning: Meaning) -> bool {
    match meaning {
        Meaning::Frame(frame) => result matches Ok(f) && f@ == frame,
        Meaning::Invalid => result == Err::<HttpFrame, HttpError>(HttpError::InvalidFrame),
        Meaning::Unknown => result == Err::<HttpFrame, HttpError>(HttpError::UnknownFrameType),
    }
}

/// What stands at the front of a stream of octets, and what is behind it.
/// There is nothing as long as the first frame is not complete.
pub open spec fn first_frame(stream: Seq<u8>) -> Option<(Meaning, Seq<u8>)> {
    if stream.len() < 9 {
        None
    } else {
        let header = header_parts(stream.take(9));
        if stream.len() < 9 + header.0 {
            None
        } else {
            Some(
                (
                    meaning(header, stream.subrange(9, 9 + header.0)),
                    stream.skip(9 + header.0),
                ),
            )
        }
    }
}

/// A frame that was written is read off the front of a stream as it was, and
/// exactly its own octets are taken.
pub proof fn law_frame_read_back(frame: HttpFrameView, rest: Seq<u8>)
    requires
        frame.well_formed(),
    ensures
        first_frame(frame.octets() + rest) == Some((Meaning::Frame(frame), rest)),
{
    match frame {
        HttpFrameView::DataFrame(f) => {
            DataFrame::law_read_back(f);
        },
        HttpFrameView::HeadersFrame(f) => {
            HeadersFrame::law_read_back(f);
        },
        HttpFrameView::SettingsFrame(f) => {
            SettingsFrame::law_read_back(f);
        },
    }
    let octets = frame.octets();
    let stream = octets + rest;
    let length = header_parts(octets.take(9)).0;
    assert(stream.take(9) =~= octets.take(9));
    assert(stream.subrange(9, 9 + length) =~= octets.skip(9));
    assert(stream.skip(9 + length) =~= rest);
}

/// Returns the octets that send the given frame to the peer.
pub fn send_frame<F: Frame>(frame: F) -> (octets: Vec<u8>)
    ensures
        octets@ == F::octets(frame@),
{
    frame.serialize()
}

/// How far the next frame has been read.
#[derive(Debug)]
pub enum RecvState {
    /// Nothing has been read: the frame header comes next.
    Header,
    /// The frame header has been read: the payload comes next.
    Payload(FrameHeader),
    /// The frame is complete, or reading it has failed.
    Done(HttpResult<HttpFrame>),
}

impl RecvState {
    /// The number of octets that have to be read next.
    pub open spec fn wanted(self) -> nat {
        match self {
            RecvState::Header => 9,
            RecvState::Payload(header) => header.0 as nat,
            RecvState::Done(_) => 0,
        }
    }

    /// Returns the number of octets that have to be read next. Each frame
    /// header is exactly nine octets long, and tells the length of the
    /// payload.
    pub fn octets_wanted(&self) -> (wanted: usize)
        ensures
            wanted == self.wanted(),
    {
        match self {
            RecvState::Header => 9,
            RecvState::Payload(header) => header.0 as usize,
            RecvState::Done(_) => 0,
        }
    }
}

/// Takes what was read of the next frame one step further.
///
/// A failed read ends it, with the failure wrapped in `HttpError::IoError`. A
/// frame of an unknown type ends in `HttpError::UnknownFrameType`, and one
/// that cannot be decoded in `HttpError::InvalidFrame`.
pub fn recv_frame(state: RecvState, read: Result<Vec<u8>, std::io::Error>) -> (next: RecvState)
    requires
        read matches Ok(octets) ==> octets@.len() == state.wanted(),
    ensures
        match (state, read) {
            (RecvState::Done(_), _) => next == state,
            (_, Err(error)) => next == RecvState::Done(Err(HttpError::IoError(error))),
            (RecvState::Header, Ok(octets)) => next == RecvState::Payload(header_parts(octets@)),
            (RecvState::Payload(header), Ok(octets)) => next matches RecvState::Done(result)
                && tells(result, meaning(header, octets@)),
        },
{
    match state {
        RecvState::Header => match read {
            Ok(octets) => {
                let header: [u8; 9] = [
                    octets[0],
                    octets[1],
                    octets[2],
                    octets[3],
                    octets[4],
                    octets[5],
                    octets[6],
                    octets[7],
                    octets[8],
                ];
                assert(header@ =~= octets@);
                RecvState::Payload(unpack_header(&header))
            },
            Err(error) => RecvState::Done(Err(HttpError::IoError(error))),
        },
        RecvState::Payload(header) => match read {
            Ok(payload) => RecvState::Done(interpret_frame(header, payload)),
            Err(error) => RecvState::Done(Err(HttpError::IoError(error))),
        },
        RecvState::Done(result) => RecvState::Done(result),
    }
}

/// Builds the frame that a frame header and a payload stand for.
fn interpret_frame(header: FrameHeader, payload: Vec<u8>) -> (result: HttpResult<HttpFrame>)
    ensures
        tells(result, meaning(header, payload@)),
{
    let raw_frame = RawFrame::with_payload(header, payload);
    match header.1 {
        DATA_FRAME_TYPE => match parse_frame(raw_frame) {
            Ok(frame) => Ok(HttpFrame::DataFrame(frame)),
            Err(error) => Err(error),
        },
        HEADERS_FRAME_TYPE => match parse_frame(raw_frame) {
            Ok(frame) => Ok(HttpFrame::HeadersFrame(frame)),
            Err(error) => Err(error),
        },
        SETTINGS_FRAME_TYPE => match parse_frame(raw_frame) {
            Ok(frame) => Ok(HttpFrame::SettingsFrame(frame)),
            Err(error) => Err(error),
        },
        _ => Err(HttpError::UnknownFrameType),
    }
}

/// Parses a raw frame into a frame of the given type. Where that fails, the
/// frame is an invalid one.
pub fn parse_frame<F: Frame>(raw_frame: RawFrame) -> (result: HttpResult<F>)
    ensures
        match F::parsed(raw_frame.header, raw_frame.payload@) {
            Some(frame) => result matches Ok(f) && f@ == frame,
            None => result == Err::<F, HttpError>(HttpError::InvalidFrame),
        },
{
    match F::from_raw(raw_frame) {
        Some(frame) => Ok(frame),
        None => Err(HttpError::InvalidFrame),
    }
}

/// The octets that every connection starts with: `PRI * HTTP/2.0`, an empty
/// line, `SM`, and an empty line.
pub open spec fn preface_octets() -> Seq<u8> {
    seq![
        0x50u8, 0x52, 0x49, 0x20, 0x2a, 0x20, 0x48, 0x54, 0x54, 0x50, 0x2f, 0x32, 0x2e, 0x30, 0x0d,
        0x0a, 0x0d, 0x0a, 0x53, 0x4d, 0x0d, 0x0a, 0x0d, 0x0a,
    ]
}

/// The settings that a client starts with: the server must not push.
pub open spec fn client_settings() -> SettingsFrameView {
    SettingsFrameView { settings: seq![HttpSetting::EnablePush(0)], flags: 0 }
}

/// Returns the octets of the client preface: a fixed sequence of octets,
/// followed by the settings of the client.
pub fn write_preface() -> (octets: Vec<u8>)
    ensures
        octets@ == preface_octets() + SettingsFrame::octets(client_settings()),
{
    let mut octets: Vec<u8> = vec![
        0x50, 0x52, 0x49, 0x20, 0x2a, 0x20, 0x48, 0x54, 0x54, 0x50, 0x2f, 0x32, 0x2e, 0x30, 0x0d,
        0x0a, 0x0d, 0x0a, 0x53, 0x4d, 0x0d, 0x0a, 0x0d, 0x0a,
    ];
    assert(octets@ =~= preface_octets());
    let mut settings = SettingsFrame::new();
    settings.add_setting(HttpSetting::EnablePush(0));
    assert(settings.settings@ =~= client_settings().settings);
    let mut frame: Vec<u8> = send_frame(settings);
    octets.append(&mut frame);
    octets
}

/// The answer to a SETTINGS frame: an acknowledgement, unless the frame is
/// one itself.
pub open spec fn settings_reply(frame: SettingsFrameView) -> Option<SettingsFrameView> {
    if flag_set(frame.flags, ACK) {
        None
    } else {
        Some(SettingsFrameView::ack())
    }
}

/// The value of a frame to be sent in answer, if there is one.
pub open spec fn reply_view(reply: Option<SettingsFrame>) -> Option<SettingsFrameView> {
    match reply {
        Some(frame) => Some(frame@),
        None => None,
    }
}

/// Handles the server preface, given what came of receiving the first frame.
/// Returns the frame that has to be sent in answer.
///
/// The server preface consists of a SETTINGS frame. A failure of the transport
/// is handed on. Anything else that is received, be it a frame of another
/// type or one that cannot be decoded, ends in `HttpError::UnableToConnect`.
pub fn read_preface(received: HttpResult<HttpFrame>) -> (reply: HttpResult<Option<SettingsFrame>>)
    ensures
        match received {
            Ok(HttpFrame::SettingsFrame(frame)) => reply matches Ok(r) && reply_view(r)
                == settings_reply(frame@),
            Err(HttpError::IoError(error)) => reply == Err::<Option<SettingsFrame>, HttpError>(
                HttpError::IoError(error),
            ),
            _ => reply == Err::<Option<SettingsFrame>, HttpError>(HttpError::UnableToConnect),
        },
{
    match received {
        Ok(HttpFrame::SettingsFrame(settings)) => Ok(handle_settings_frame(settings)),
        Err(HttpError::IoError(error)) => Err(HttpError::IoError(error)),
        _ => Err(HttpError::UnableToConnect),
    }
}

/// The answer to a SETTINGS frame needs no answer itself, so two peers that
/// acknowledge each other's settings come to an end.
pub proof fn law_no_answer_to_an_answer(frame: SettingsFrameView)
    ensures
        settings_reply(frame) matches Some(reply) ==> settings_reply(reply) is None,
{
    assert(flag_set(1u8, 1u8)) by (bit_vector);
}

/// The client preface is the fixed octets and one SETTINGS frame, and
/// nothing else: read behind the fixed octets, it gives the settings of the
/// client.
pub proof fn law_preface_read_back()
    ensures
        ({
            let preface = preface_octets() + SettingsFrame::octets(client_settings());
            &&& preface_octets().len() == 24
            &&& preface.take(24) == preface_octets()
            &&& first_frame(preface.skip(24)) == Some(
                (
                    Meaning::Frame(HttpFrameView::SettingsFrame(client_settings())),
                    Seq::<u8>::empty(),
                ),
            )
        }),
{
    let octets = SettingsFrame::octets(client_settings());
    let preface = preface_octets() + octets;
    assert(preface.take(24) =~= preface_octets());
    assert(preface.skip(24) =~= octets + Seq::<u8>::empty());
    assert(!flag_set(0u8, 1u8)) by (bit_vector);
    law_frame_read_back(HttpFrameView::SettingsFrame(client_settings()), Seq::empty());
}

/// The frame that sends a header block on a stream, as the last that the
/// client sends on it.
pub open spec fn request_frame_view(
    header_fragment: Seq<u8>,
    stream_id: StreamId,
) -> HeadersFrameView {
    HeadersFrameView {
        header_fragment,
        flags: END_HEADERS | END_STREAM,
        stream_id,
        stream_dep: None,
        padding_len: None,
    }
}

/// Builds the frame that opens a stream with a header block, and ends it from
/// this side, since no body is sent.
pub fn request_frame(header_fragment: Vec<u8>, stream_id: StreamId) -> (frame: HeadersFrame)
    ensures
        frame@ == request_frame_view(header_fragment@, stream_id),
{
    let mut frame = HeadersFrame::new(header_fragment, stream_id);
    frame.set_flag(HeadersFlag::EndHeaders);
    frame.set_flag(HeadersFlag::EndStream);
    assert(0u8 | 4u8 | 1u8 == 4u8 | 1u8) by (bit_vector);
    frame
}

/// Returns the octets that send the given request to the server. The body of
/// the request is ignored.
///
/// As long as the headers fit into one frame, the frame is read back as it
/// was sent, and a decoder in step with the encoder gets the same headers out
/// of it.
pub fn send_request(encoder: &mut hpack::Encoder<'_>, req: Request) -> (octets: Vec<u8>)
    ensures
        ({
            let headers = header_list(req.headers@);
            let (block, table) = encoded(encoder_table(*old(encoder)), headers);
            let frame = request_frame_view(block, req.stream_id);
            &&& octets@ == HeadersFrame::octets(frame)
            &&& encoder_table(*final(encoder)) == table
            &&& 0 < req.stream_id < STREAM_LIMIT && block.len() < LENGTH_LIMIT ==> first_frame(
                octets@,
            ) == Some((Meaning::Frame(HttpFrameView::HeadersFrame(frame)), Seq::<u8>::empty()))
            &&& short_strings(headers) ==> block_decoded(
                encoder_table(*old(encoder)),
                DEFAULT_TABLE_SIZE as nat,
                block,
            ) == (
                Ok::<Seq<HeaderView>, CompressionError>(headers),
                table,
                DEFAULT_TABLE_SIZE as nat,
            )
        }),
{
    let header_fragment: Vec<u8> = encode(encoder, &req.headers);
    let ghost view = request_frame_view(header_fragment@, req.stream_id);
    let frame = request_frame(header_fragment, req.stream_id);
    proof {
        assert(!flag_set(4u8 | 1u8, 0x8) && !flag_set(4u8 | 1u8, 0x20)) by (bit_vector);
        if 0 < req.stream_id < STREAM_LIMIT && view.header_fragment.len() < LENGTH_LIMIT {
            law_frame_read_back(HttpFrameView::HeadersFrame(view), Seq::empty());
            assert(HeadersFrame::octets(view) + Seq::<u8>::empty() =~= HeadersFrame::octets(view));
        }
        law_sound_block(
            encoder_table(*old(encoder)),
            DEFAULT_TABLE_SIZE as nat,
            view.header_fragment,
        );
    }
    send_frame(frame)
}

/// What a session is told about a DATA frame.
pub open spec fn after_data_frame<S: Session>(before: S::V, frame: DataFrameView) -> S::V {
    let after = S::after_data(before, frame.stream_id, frame.data);
    if flag_set(frame.flags, END_STREAM) {
        S::after_end(after, frame.stream_id)
    } else {
        after
    }
}

/// What a session is told about a HEADERS frame, once its headers are decoded.
pub open spec fn after_headers_frame<S: Session>(
    before: S::V,
    frame: HeadersFrameView,
    headers: Seq<HeaderView>,
) -> S::V {
    let after = S::after_headers(before, frame.stream_id, headers);
    if flag_set(frame.flags, END_STREAM) {
        S::after_end(after, frame.stream_id)
    } else {
        after
    }
}

/// Whether a session, a decoder and a reply are what a frame makes of them.
///
/// Octets and headers go to the session, and need no reply. A header block
/// that cannot be decoded is an error, and the session does not hear of it. A
/// SETTINGS frame concerns neither the session nor the decoder, and may need
/// a reply.
pub open spec fn frame_handled<S: Session>(
    frame: HttpFrameView,
    before: S::V,
    after: S::V,
    decoder_before: hpack::Decoder<'_>,
    decoder_after: hpack::Decoder<'_>,
    reply: HttpResult<Option<SettingsFrame>>,
) -> bool {
    match frame {
        HttpFrameView::DataFrame(f) => {
            &&& reply == Ok::<Option<SettingsFrame>, HttpError>(None)
            &&& after == after_data_frame::<S>(before, f)
            &&& decoder_after == decoder_before
        },
        HttpFrameView::HeadersFrame(f) => {
            let (result, table, limit) = block_decoded(
                decoder_table(decoder_before),
                decoder_limit(decoder_before),
                f.header_fragment,
            );
            &&& decoder_table(decoder_after) == table
            &&& decoder_limit(decoder_after) == limit
            &&& match result {
                Ok(headers) => {
                    &&& reply == Ok::<Option<SettingsFrame>, HttpError>(None)
                    &&& after == after_headers_frame::<S>(before, f, headers)
                },
                Err(error) => {
                    &&& reply == Err::<Option<SettingsFrame>, HttpError>(
                        HttpError::CompressionError(error),
                    )
                    &&& after == before
                },
            }
        },
        HttpFrameView::SettingsFrame(f) => {
            &&& reply matches Ok(r) && reply_view(r) == settings_reply(f)
            &&& after == before
            &&& decoder_after == decoder_before
        },
    }
}

/// A session hears of a request as it was sent: of its headers, and then of
/// the end of the stream. That holds where the block decodes into the headers
/// that went into it, as it does for a decoder in step with the encoder.
pub proof fn law_request_arrives<S: Session>(
    headers: Seq<HeaderView>,
    block: Seq<u8>,
    table: Seq<HeaderView>,
    stream_id: StreamId,
    before: S::V,
    after: S::V,
    decoder_before: hpack::Decoder<'_>,
    decoder_after: hpack::Decoder<'_>,
    reply: HttpResult<Option<SettingsFrame>>,
)
    requires
        frame_handled::<S>(
            HttpFrameView::HeadersFrame(request_frame_view(block, stream_id)),
            before,
            after,
            decoder_before,
            decoder_after,
            reply,
        ),
    ensures
        block_decoded(decoder_table(decoder_before), decoder_limit(decoder_before), block) == (
            Ok::<Seq<HeaderView>, CompressionError>(headers),
            table,
            decoder_limit(decoder_before),
        ) ==> {
            &&& after == S::after_end(S::after_headers(before, stream_id, headers), stream_id)
            &&& reply == Ok::<Option<SettingsFrame>, HttpError>(None)
            &&& decoder_table(decoder_after) == table
            &&& decoder_limit(decoder_after) == decoder_limit(decoder_before)
        },
{
    assert(flag_set(4u8 | 1u8, 1u8)) by (bit_vector);
}

/// Handles the next frame, given what came of receiving it. Returns the frame
/// that has to be sent in answer.
///
/// A frame of an unknown type is ignored. All other errors are handed on.
pub fn handle_next_frame<S: Session>(
    received: HttpResult<HttpFrame>,
    session: &mut S,
    decoder: &mut hpack::Decoder<'_>,
) -> (reply: HttpResult<Option<SettingsFrame>>)
    ensures
        match received {
            Ok(frame) => frame_handled::<S>(
                frame@,
                old(session)@,
                final(session)@,
                *old(decoder),
                *final(decoder),
                reply,
            ),
            Err(error) => {
                &&& *final(session) == *old(session)
                &&& *final(decoder) == *old(decoder)
                &&& error is UnknownFrameType ==> reply == Ok::<Option<SettingsFrame>, HttpError>(
                    None,
                )
                &&& error !is UnknownFrameType ==> reply == Err::<Option<SettingsFrame>, HttpError>(
                    error,
                )
            },
        },
{
    let frame = match received {
        Ok(frame) => frame,
        Err(HttpError::UnknownFrameType) => return Ok(None),
        Err(error) => return Err(error),
    };
    handle_frame(session, decoder, frame)
}

/// Handles a received frame. Returns the frame that has to be sent in answer.
pub fn handle_frame<S: Session>(
    session: &mut S,
    decoder: &mut hpack::Decoder<'_>,
    frame: HttpFrame,
) -> (reply: HttpResult<Option<SettingsFrame>>)
    ensures
        frame_handled::<S>(
            frame@,
            old(session)@,
            final(session)@,
            *old(decoder),
            *final(decoder),
            reply,
        ),
{
    match frame {
        HttpFrame::DataFrame(frame) => match handle_data_frame(session, frame) {
            Ok(_) => Ok(None),
            Err(error) => Err(error),
        },
        HttpFrame::HeadersFrame(frame) => match handle_headers_frame(session, decoder, frame) {
            Ok(_) => Ok(None),
            Err(error) => Err(error),
        },
        HttpFrame::SettingsFrame(frame) => Ok(handle_settings_frame(frame)),
    }
}

/// Handles a received DATA frame: the session is told of its octets, and of
/// the end of the stream where the frame ends it.
pub fn handle_data_frame<S: Session>(session: &mut S, frame: DataFrame) -> (result: HttpResult<()>)
    ensures
        result == Ok::<(), HttpError>(()),
        final(session)@ == after_data_frame::<S>(old(session)@, frame@),
{
    session.new_data_chunk(frame.get_stream_id(), frame.data.as_slice());
    if frame.is_set(DataFlag::EndStream) {
        session.end_of_stream(frame.get_stream_id())
    }
    Ok(())
}

/// Handles a received HEADERS frame: its header block is decoded, and what
/// came of that is handled by [`handle_headers`].
pub fn handle_headers_frame<S: Session>(
    session: &mut S,
    decoder: &mut hpack::Decoder<'_>,
    frame: HeadersFrame,
) -> (result: HttpResult<()>)
    ensures
        frame_handled::<S>(
            HttpFrameView::HeadersFrame(frame@),
            old(session)@,
            final(session)@,
            *old(decoder),
            *final(decoder),
            match result {
                Ok(_) => Ok::<Option<SettingsFrame>, HttpError>(None),
                Err(error) => Err(error),
            },
        ),
{
    let headers = decode_headers(decoder, frame.header_fragment.as_slice());
    handle_headers(session, &frame, headers)
}

/// Handles a received HEADERS frame, given what came of decoding its header
/// block: the session is told of the headers, and of the end of the stream
/// where the frame ends it.
pub fn handle_headers<S: Session>(
    session: &mut S,
    frame: &HeadersFrame,
    headers: Result<Vec<Header>, CompressionError>,
) -> (result: HttpResult<()>)
    ensures
        match headers {
            Ok(h) => {
                &&& result == Ok::<(), HttpError>(())
                &&& final(session)@ == after_headers_frame::<S>(
                    old(session)@,
                    frame@,
                    header_list(h@),
                )
            },
            Err(error) => {
                &&& result == Err::<(), HttpError>(HttpError::CompressionError(error))
                &&& *final(session) == *old(session)
            },
        },
{
    let headers = match headers {
        Ok(headers) => headers,
        Err(error) => return Err(HttpError::CompressionError(error)),
    };
    session.new_headers(frame.get_stream_id(), headers);
    if frame.is_end_of_stream() {
        session.end_of_stream(frame.get_stream_id());
    }
    Ok(())
}

/// Handles a received SETTINGS frame. Returns the acknowledgement that has to
/// be sent, unless the frame is one itself.
pub fn handle_settings_frame(frame: SettingsFrame) -> (reply: Option<SettingsFrame>)
    ensures
        reply_view(reply) == settings_reply(frame@),
{
    if !frame.is_ack() {
        Some(SettingsFrame::new_ack())
    } else {
        None
    }
}

/// A received frame is of an unknown type exactly where its type octet is
/// none of the three known ones, whatever else it holds. It is invalid only
/// where the type is known, and a valid one is of the type that its header
/// says.
pub proof fn law_known_types(
    header: FrameHeader,
    payload: Seq<u8>,
    result: HttpResult<HttpFrame>,
)
    requires
        tells(result, meaning(header, payload)),
    ensures
        result == Err::<HttpFrame, HttpError>(HttpError::UnknownFrameType) <==> header.1 != 0x0
            && header.1 != 0x1 && header.1 != 0x4,
        result is Err ==> result == Err::<HttpFrame, HttpError>(HttpError::UnknownFrameType)
            || result == Err::<HttpFrame, HttpError>(HttpError::InvalidFrame),
        result matches Ok(HttpFrame::DataFrame(_)) ==> header.1 == 0x0,
        result matches Ok(HttpFrame::HeadersFrame(_)) ==> header.1 == 0x1,
        result matches Ok(HttpFrame::SettingsFrame(_)) ==> header.1 == 0x4,
{
}

/// A frame of a known type is received exactly where its header and its
/// payload agree: the length is that of the payload, DATA and HEADERS belong
/// to a stream and SETTINGS to none, padding and dependency have room, and
/// SETTINGS hold whole settings, or none in an acknowledgement.
pub proof fn law_received_if_valid(
    header: FrameHeader,
    payload: Seq<u8>,
    result: HttpResult<HttpFrame>,
)
    requires
        tells(result, meaning(header, payload)),
    ensures
        header.1 == 0x0 ==> (result is Ok <==> {
            &&& header.0 == payload.len()
            &&& header.3 != 0
            &&& header.2 & 0x8 == 0x8 ==> payload.len() > 0 && payload[0] < payload.len()
        }),
        header.1 == 0x1 ==> (result is Ok <==> {
            let used: int = (if header.2 & 0x8 == 0x8 {
                1 + payload[0] as int
            } else {
                0
            }) + (if header.2 & 0x20 == 0x20 {
                5int
            } else {
                0
            });
            &&& header.0 == payload.len()
            &&& header.3 != 0
            &&& used <= payload.len()
        }),
        header.1 == 0x4 ==> (result is Ok <==> {
            &&& header.0 == payload.len()
            &&& header.3 == 0
            &&& payload.len() % 6 == 0
            &&& header.2 & 0x1 == 0x1 ==> payload.len() == 0
        }),
{
    law_data_validity(header, payload);
    law_headers_validity(header, payload);
    law_settings_frame_validity(header, payload);
}

/// A received frame holds what its header and its payload hold.
pub proof fn law_received_frame(
    header: FrameHeader,
    payload: Seq<u8>,
    result: HttpResult<HttpFrame>,
)
    requires
        tells(result, meaning(header, payload)),
    ensures
        ({
            let start: int = if header.2 & 0x8 == 0x8 {
                1
            } else {
                0
            };
            let end = payload.len() - (if header.2 & 0x8 == 0x8 {
                payload[0] as int
            } else {
                0
            });
            match result {
                Ok(HttpFrame::DataFrame(frame)) => {
                    &&& frame.flags == header.2
                    &&& frame.stream_id == header.3
                    &&& frame.data@ == payload.subrange(start, end)
                },
                Ok(HttpFrame::HeadersFrame(frame)) => {
                    &&& frame.flags == header.2
                    &&& frame.stream_id == header.3
                    &&& header.2 & 0x20 != 0x20 ==> frame.header_fragment@ == payload.subrange(
                        start,
                        end,
                    )
                    &&& header.2 & 0x20 == 0x20 ==> frame.header_fragment@ == payload.subrange(
                        start + 5,
                        end,
                    )
                },
                Ok(HttpFrame::SettingsFrame(frame)) => {
                    &&& frame.flags == header.2
                    &&& frame.settings@ == settings_parts(payload)
                },
                Err(_) => true,
            }
        }),
{
    match result {
        Ok(HttpFrame::DataFrame(frame)) => {
            law_data_meaning(header, payload, frame);
            assert(payload.subrange(0, payload.len() as int) =~= payload);
        },
        Ok(HttpFrame::HeadersFrame(frame)) => {
            law_headers_meaning(header, payload, frame);
        },
        Ok(HttpFrame::SettingsFrame(frame)) => {
            law_settings_frame_meaning(header, payload, frame);
        },
        Err(_) => {},
    }
}

/// How many octets are read: nine for every frame header, then the whole
/// payload that the header announces, then none.
pub proof fn law_octets_wanted(header: FrameHeader, result: HttpResult<HttpFrame>)
    ensures
        RecvState::Header.wanted() == 9,
        RecvState::Payload(header).wanted() == header.0,
        RecvState::Done(result).wanted() == 0,
{
}

/// What is read off the front of a stream is the frame whose header stands
/// there, with as many octets behind it as the header announces.
pub proof fn law_first_frame(header: Seq<u8>, payload: Seq<u8>, rest: Seq<u8>)
    requires
        header.len() == 9,
        payload.len() == header[0] * 65536 + header[1] * 256 + header[2],
    ensures
        first_frame(header + payload + rest) == Some(
            (meaning(header_parts(header), payload), rest),
        ),
{
    let stream = header + payload + rest;
    law_header_meaning(header);
    assert(stream.take(9) =~= header);
    assert(stream.subrange(9, 9 + payload.len() as int) =~= payload);
    assert(stream.skip(9 + payload.len() as int) =~= rest);
}

/// The client preface, octet by octet.
pub proof fn law_preface_octets()
    ensures
        preface_octets() + SettingsFrame::octets(client_settings()) == seq![
            0x50u8, 0x52, 0x49, 0x20, 0x2a, 0x20, 0x48, 0x54, 0x54, 0x50, 0x2f, 0x32, 0x2e, 0x30,
            0x0d, 0x0a, 0x0d, 0x0a, 0x53, 0x4d, 0x0d, 0x0a, 0x0d, 0x0a, 0, 0, 6, 4, 0, 0, 0, 0, 0,
            0, 2, 0, 0, 0, 0,
        ],
{
    reveal_with_fuel(settings_octets, 2);
    let list = seq![HttpSetting::EnablePush(0)];
    assert(list.drop_last() =~= Seq::<HttpSetting>::empty());
    assert(settings_octets(list) =~= seq![0u8, 2, 0, 0, 0, 0]);
    assert(header_octets((6, 4, 0, 0)) =~= seq![0u8, 0, 6, 4, 0, 0, 0, 0, 0]);
    assert(SettingsFrame::octets(client_settings()) =~= seq![
        0u8, 0, 6, 4, 0, 0, 0, 0, 0, 0, 2, 0, 0, 0, 0,
    ]);
}

/// Every SETTINGS frame that is no acknowledgement is answered with one,
/// whatever settings it holds, and no acknowledgement is answered.
pub proof fn law_settings_are_acknowledged(frame: SettingsFrame, reply: Option<SettingsFrame>)
    requires
        reply_view(reply) == settings_reply(frame@),
    ensures
        frame.flags & 0x1 == 0x1 ==> reply is None,
        frame.flags & 0x1 == 0 ==> reply is Some,
        reply matches Some(answer) ==> answer.flags == 0x1 && answer.settings@.len() == 0,
{
}

/// The frame that is sent for a request is complete and the last of the
/// client on its stream, however long the header block is: it has the flags
/// for both and no other, the whole block, and neither padding nor a
/// dependency.
pub proof fn law_request_is_complete(
    frame: HeadersFrame,
    header_fragment: Seq<u8>,
    stream_id: StreamId,
)
    requires
        frame@ == request_frame_view(header_fragment, stream_id),
    ensures
        frame.flags == 0x5,
        frame.flags & 0x4 == 0x4,
        frame.flags & 0x1 == 0x1,
        frame.header_fragment@ == header_fragment,
        frame.stream_id == stream_id,
        frame.stream_dep is None,
        frame.padding_len is None,
{
    assert(4u8 | 1u8 == 5u8 && 5u8 & 0x4 == 0x4 && 5u8 & 0x1 == 0x1) by (bit_vector);
}

/// The octets that are sent for a request, however long the header block is:
/// one header, of a HEADERS frame with the flags 0x5 on the stream of the
/// request, and then the block.
pub proof fn law_request_octets(header_fragment: Seq<u8>, stream_id: StreamId)
    ensures
        ({
            let octets = HeadersFrame::octets(request_frame_view(header_fragment, stream_id));
            &&& octets.len() == 9 + header_fragment.len()
            &&& octets[0] * 65536 + octets[1] * 256 + octets[2] == header_fragment.len() as int
                % 16777216
            &&& octets[3] == 0x1
            &&& octets[4] == 0x5
            &&& octets[5] * 16777216 + octets[6] * 65536 + octets[7] * 256 + octets[8] == stream_id
            &&& octets.skip(9) == header_fragment
        }),
{
    assert(4u8 | 1u8 == 5u8) by (bit_vector);
    assert(!flag_set(5u8, 0x8) && !flag_set(5u8, 0x20)) by (bit_vector);
    law_frame_layout(1, 5, stream_id, header_fragment);
}

/// What a session hears of a HEADERS frame: its headers, and the end of the
/// stream if and only if the frame has that flag, whatever its other flags
/// are.
pub proof fn law_headers_end_streams_by_flag<S: Session>(
    before: S::V,
    frame: HeadersFrame,
    headers: Seq<HeaderView>,
)
    ensures
        frame.flags & 0x1 == 0 ==> after_headers_frame::<S>(before, frame@, headers)
            == S::after_headers(before, frame.stream_id, headers),
        frame.flags & 0x1 == 0x1 ==> after_headers_frame::<S>(before, frame@, headers)
            == S::after_end(
            S::after_headers(before, frame.stream_id, headers),
            frame.stream_id,
        ),
{
}

/// What a session hears of a DATA frame: its octets, and the end of the stream
/// if and only if the frame has that flag, whatever its other flags are.
pub proof fn law_data_ends_streams_by_flag<S: Session>(before: S::V, frame: DataFrame)
    ensures
        frame.flags & 0x1 == 0 ==> after_data_frame::<S>(before, frame@) == S::after_data(
            before,
            frame.stream_id,
            frame.data@,
        ),
        frame.flags & 0x1 == 0x1 ==> after_data_frame::<S>(before, frame@) == S::after_end(
            S::after_data(before, frame.stream_id, frame.data@),
            frame.stream_id,
        ),
{
}

/// What comes of handling a frame. Octets reach the session as they are, with
/// nothing to answer.
pub proof fn law_data_frame_handled<S: Session>(
    frame: DataFrame,
    before: S::V,
    after: S::V,
    decoder_before: hpack::Decoder<'_>,
    decoder_after: hpack::Decoder<'_>,
    reply: HttpResult<Option<SettingsFrame>>,
)
    requires
        frame_handled::<S>(
            HttpFrame::DataFrame(frame)@,
            before,
            after,
            decoder_before,
            decoder_after,
            reply,
        ),
    ensures
        reply == Ok::<Option<SettingsFrame>, HttpError>(None),
        decoder_after == decoder_before,
        frame.flags & 0x1 == 0 ==> after == S::after_data(before, frame.stream_id, frame.data@),
        frame.flags & 0x1 == 0x1 ==> after == S::after_end(
            S::after_data(before, frame.stream_id, frame.data@),
            frame.stream_id,
        ),
{
}

/// What comes of handling a frame. A header block that is decoded reaches the
/// session as its headers, with nothing to answer, and one that is not ends in
/// the error, with the session left alone.
pub proof fn law_headers_frame_handled<S: Session>(
    frame: HeadersFrame,
    before: S::V,
    after: S::V,
    decoder_before: hpack::Decoder<'_>,
    decoder_after: hpack::Decoder<'_>,
    reply: HttpResult<Option<SettingsFrame>>,
)
    requires
        frame_handled::<S>(
            HttpFrame::HeadersFrame(frame)@,
            before,
            after,
            decoder_before,
            decoder_after,
            reply,
        ),
    ensures
        ({
            let (result, table, limit) = block_decoded(
                decoder_table(decoder_before),
                decoder_limit(decoder_before),
                frame.header_fragment@,
            );
            &&& decoder_table(decoder_after) == table
            &&& decoder_limit(decoder_after) == limit
            &&& result is Err ==> after == before && reply == Err::<
                Option<SettingsFrame>,
                HttpError,
            >(HttpError::CompressionError(result->Err_0))
            &&& result matches Ok(headers) ==> {
                &&& reply == Ok::<Option<SettingsFrame>, HttpError>(None)
                &&& frame.flags & 0x1 == 0 ==> after == S::after_headers(
                    before,
                    frame.stream_id,
                    headers,
                )
                &&& frame.flags & 0x1 == 0x1 ==> after == S::after_end(
                    S::after_headers(before, frame.stream_id, headers),
                    frame.stream_id,
                )
            }
        }),
{
}

/// What comes of handling a frame. Settings leave the session and the decoder
/// alone, and are acknowledged unless they are an acknowledgement.
pub proof fn law_settings_frame_handled<S: Session>(
    frame: SettingsFrame,
    before: S::V,
    after: S::V,
    decoder_before: hpack::Decoder<'_>,
    decoder_after: hpack::Decoder<'_>,
    reply: HttpResult<Option<SettingsFrame>>,
)
    requires
        frame_handled::<S>(
            HttpFrame::SettingsFrame(frame)@,
            before,
            after,
            decoder_before,
            decoder_after,
            reply,
        ),
    ensures
        after == before,
        decoder_after == decoder_before,
        frame.flags & 0x1 == 0x1 ==> reply == Ok::<Option<SettingsFrame>, HttpError>(None),
        frame.flags & 0x1 == 0 ==> (reply matches Ok(Some(answer)) && answer.flags == 0x1
            && answer.settings@.len() == 0),
{
}

/// A response in two frames: the stream has the headers of the first and the
/// octets of the second behind those that it had, and it is closed if and only
/// if it was before, or one of the two frames ends it.
pub proof fn law_response_arrives(
    before: Map<StreamId, StreamView>,
    first: HeadersFrame,
    headers: Seq<HeaderView>,
    second: DataFrame,
)
    requires
        before.contains_key(first.stream_id),
        second.stream_id == first.stream_id,
    ensures
        ({
            let id = first.stream_id;
            let between = after_headers_frame::<DefaultSession>(before, first@, headers);
            let after = after_data_frame::<DefaultSession>(between, second@);
            &&& between[id].closed <==> before[id].closed || first.flags & 0x1 == 0x1
            &&& between[id].body == before[id].body
            &&& after[id].headers == Some(headers)
            &&& after[id].body == before[id].body + second.data@
            &&& after[id].closed <==> before[id].closed || first.flags & 0x1 == 0x1 || second.flags
                & 0x1 == 0x1
        }),
{
}

} // verus!
