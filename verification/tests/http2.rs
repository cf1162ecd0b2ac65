use hpack::{Decoder, Encoder};
use hpack::decoder::DecoderError;
use hyper_wire::http2::compression::{count_sound, decode_headers, judge_headers};
use hyper_wire::http2::frame::{
    DataFrame, Frame, HeadersFrame, HttpSetting, SettingsFrame,
};
use hyper_wire::http2::http2::{
    handle_data_frame, handle_frame, handle_headers, handle_headers_frame, handle_next_frame,
    handle_settings_frame, read_preface, recv_frame, request_frame, send_frame, send_request,
    write_preface, HttpFrame, RecvState,
};
use hyper_wire::http2::session::{DefaultSession, Session};
use hyper_wire::http2::utils::{get_next_stream_id, new_stream};
use hyper_wire::http2::{CompressionError, Config, Header, HttpError, HttpResult, Request};

fn header(name: &str, value: &str) -> Header {
    (name.as_bytes().to_vec(), value.as_bytes().to_vec())
}

/// Reads a frame off the front of `stream`, as a connection would.
fn receive(stream: &mut Vec<u8>) -> HttpResult<HttpFrame> {
    let mut state = RecvState::Header;
    loop {
        if let RecvState::Done(result) = state {
            return result;
        }
        let wanted = state.octets_wanted();
        let read = if wanted <= stream.len() {
            Ok(stream.drain(..wanted).collect())
        } else {
            Err(std::io::Error::from(std::io::ErrorKind::UnexpectedEof))
        };
        state = recv_frame(state, read);
    }
}

fn session_with(stream_id: u32) -> DefaultSession {
    let mut session = DefaultSession::new();
    session.new_stream(stream_id);
    session
}

#[test]
fn test_stream_ids_go_up_by_two() {
    let mut config = Config { next_stream_id: 1, session: DefaultSession::new() };
    assert_eq!(get_next_stream_id(&mut config), 1);
    assert_eq!(new_stream(&mut config), 3);
    assert_eq!(config.next_stream_id, 5);
    assert!(config.session.get_stream(3).is_some());
    assert!(config.session.get_stream(1).is_none());
}

#[test]
fn test_new_stream_leaves_other_streams_alone() {
    let mut config = Config { next_stream_id: 1, session: DefaultSession::new() };
    let first = new_stream(&mut config);
    config.session.new_data_chunk(first, b"abc");
    let second = new_stream(&mut config);
    assert_eq!(config.session.get_stream(first).unwrap().body, b"abc".to_vec());
    assert!(config.session.get_stream(second).unwrap().body.is_empty());
}

#[test]
fn test_session_keeps_streams_apart() {
    let mut session = session_with(1);
    session.new_stream(3);
    session.new_data_chunk(1, b"ab");
    session.new_data_chunk(3, b"xy");
    session.new_data_chunk(1, b"cd");
    session.new_data_chunk(5, b"lost");
    session.new_headers(3, vec![header("a", "b")]);
    session.end_of_stream(1);
    let first = session.get_stream(1).unwrap();
    assert_eq!(first.body, b"abcd".to_vec());
    assert!(first.closed);
    assert!(first.headers.is_none());
    let third = session.get_stream(3).unwrap();
    assert_eq!(third.body, b"xy".to_vec());
    assert!(!third.closed);
    assert_eq!(third.headers, Some(vec![header("a", "b")]));
    assert!(session.get_stream(5).is_none());
}

#[test]
fn test_send_frame() {
    assert_eq!(send_frame(SettingsFrame::new_ack()), vec![0, 0, 0, 4, 1, 0, 0, 0, 0]);
}

#[test]
fn test_frames_are_received_one_by_one() {
    let data = DataFrame { data: vec![1, 2, 3], flags: 1, stream_id: 1, padding_len: None };
    let headers = request_frame(vec![0x82], 3);
    let mut settings = SettingsFrame::new();
    settings.add_setting(HttpSetting::MaxFrameSize(0x4000));
    let mut stream = data.serialize();
    stream.extend_from_slice(&headers.serialize());
    stream.extend_from_slice(&settings.serialize());
    stream.push(0);
    assert_eq!(receive(&mut stream).unwrap(), HttpFrame::DataFrame(data));
    assert_eq!(receive(&mut stream).unwrap(), HttpFrame::HeadersFrame(headers));
    assert_eq!(receive(&mut stream).unwrap(), HttpFrame::SettingsFrame(settings));
    assert_eq!(stream, vec![0]);
}

#[test]
fn test_receive_wants_header_then_payload() {
    let state = RecvState::Header;
    assert_eq!(state.octets_wanted(), 9);
    let state = recv_frame(state, Ok(vec![0, 1, 2, 0, 0, 0, 0, 0, 1]));
    assert_eq!(state.octets_wanted(), 0x102);
    let state = recv_frame(state, Ok(vec![5; 0x102]));
    assert_eq!(state.octets_wanted(), 0);
    match state {
        RecvState::Done(Ok(HttpFrame::DataFrame(frame))) => assert_eq!(frame.data, vec![5; 0x102]),
        _ => panic!("a frame was received"),
    }
}

#[test]
fn test_receive_hands_on_io_errors() {
    for mut stream in [vec![], vec![0; 8], vec![0, 0, 1, 0, 0, 0, 0, 0, 1]] {
        match receive(&mut stream) {
            Err(HttpError::IoError(error)) => {
                assert_eq!(error.kind(), std::io::ErrorKind::UnexpectedEof)
            }
            _ => panic!("the stream ends too early"),
        }
    }
}

#[test]
fn test_receive_unknown_and_invalid_frames() {
    let mut unknown = vec![0, 0, 1, 9, 0, 0, 0, 0, 1, 7];
    assert!(matches!(receive(&mut unknown), Err(HttpError::UnknownFrameType)));
    assert!(unknown.is_empty());
    let mut invalid = vec![0, 0, 1, 4, 0, 0, 0, 0, 0, 7];
    assert!(matches!(receive(&mut invalid), Err(HttpError::InvalidFrame)));
    assert!(invalid.is_empty());
}

#[test]
fn test_io_errors_convert() {
    let error = std::io::Error::from(std::io::ErrorKind::BrokenPipe);
    assert!(matches!(HttpError::from(error), HttpError::IoError(_)));
}

#[test]
fn test_client_preface() {
    let mut preface = write_preface();
    assert_eq!(&preface[..24], b"PRI * HTTP/2.0\r\n\r\nSM\r\n\r\n");
    assert_eq!(&preface[24..], &[0, 0, 6, 4, 0, 0, 0, 0, 0, 0, 2, 0, 0, 0, 0]);
    preface.drain(..24);
    match receive(&mut preface) {
        Ok(HttpFrame::SettingsFrame(frame)) => {
            assert_eq!(frame.settings, vec![HttpSetting::EnablePush(0)])
        }
        _ => panic!("the preface ends with settings"),
    }
    assert!(preface.is_empty());
}

#[test]
fn test_server_preface() {
    let settings = HttpFrame::SettingsFrame(SettingsFrame::new());
    assert_eq!(read_preface(Ok(settings)).unwrap(), Some(SettingsFrame::new_ack()));
    let ack = HttpFrame::SettingsFrame(SettingsFrame::new_ack());
    assert_eq!(read_preface(Ok(ack)).unwrap(), None);
    let headers = HttpFrame::HeadersFrame(HeadersFrame::new(vec![], 1));
    assert!(matches!(read_preface(Ok(headers)), Err(HttpError::UnableToConnect)));
    let data = DataFrame { data: vec![], flags: 0, stream_id: 1, padding_len: None };
    assert!(matches!(
        read_preface(Ok(HttpFrame::DataFrame(data))),
        Err(HttpError::UnableToConnect)
    ));
}

#[test]
fn test_server_preface_that_cannot_be_decoded() {
    let mut stream = vec![0, 0, 1, 4, 0, 0, 0, 0, 0, 0xff];
    assert!(matches!(read_preface(receive(&mut stream)), Err(HttpError::UnableToConnect)));
    assert!(stream.is_empty());
}

#[test]
fn test_server_preface_of_an_unknown_type() {
    let mut stream = vec![0, 0, 1, 9, 0, 0, 0, 0, 0, 7];
    assert!(matches!(read_preface(receive(&mut stream)), Err(HttpError::UnableToConnect)));
}

#[test]
fn test_server_preface_that_is_cut_off() {
    for mut stream in [vec![], vec![0, 0, 6, 4, 0, 0, 0, 0, 0, 0]] {
        match read_preface(receive(&mut stream)) {
            Err(HttpError::IoError(error)) => {
                assert_eq!(error.kind(), std::io::ErrorKind::UnexpectedEof)
            }
            _ => panic!("the stream ends too early"),
        }
    }
}

#[test]
fn test_settings_are_acknowledged_once() {
    let reply = handle_settings_frame(SettingsFrame::new()).unwrap();
    assert!(reply.is_ack());
    assert_eq!(handle_settings_frame(reply), None);
}

#[test]
fn test_request_octets() {
    let mut encoder = Encoder::new();
    let request = |stream_id: u32| Request {
        stream_id,
        headers: vec![header(":method", "GET"), header("x", "y")],
        body: b"ignored".to_vec(),
    };
    assert_eq!(
        send_request(&mut encoder, request(1)),
        vec![0, 0, 6, 1, 5, 0, 0, 0, 1, 0x82, 0x40, 1, b'x', 1, b'y']
    );
    assert_eq!(
        send_request(&mut encoder, request(3)),
        vec![0, 0, 2, 1, 5, 0, 0, 0, 3, 0x82, 0xbe]
    );
}

#[test]
fn test_requests_arrive() {
    let mut encoder = Encoder::new();
    let mut decoder = Decoder::new();
    let mut session = session_with(1);
    session.new_stream(3);
    let lists = [
        (1, vec![header(":method", "GET"), header(":path", "/a"), header("x", "y")]),
        (3, vec![header("x", "y"), header(":path", "/a"), header("empty", "")]),
    ];
    for (stream_id, headers) in lists {
        let request = Request { stream_id, headers: headers.clone(), body: Vec::new() };
        let mut octets = send_request(&mut encoder, request);
        let received = receive(&mut octets);
        assert!(octets.is_empty());
        let reply = handle_next_frame(received, &mut session, &mut decoder).unwrap();
        assert_eq!(reply, None);
        let stream = session.get_stream(stream_id).unwrap();
        assert_eq!(stream.headers, Some(headers));
        assert!(stream.closed);
    }
}

#[test]
fn test_unknown_frames_are_ignored() {
    let mut session = session_with(1);
    let mut decoder = Decoder::new();
    let reply = handle_next_frame(
        Err(HttpError::UnknownFrameType),
        &mut session,
        &mut decoder,
    );
    assert_eq!(reply.unwrap(), None);
}

#[test]
fn test_other_errors_are_handed_on() {
    let mut session = session_with(1);
    let mut decoder = Decoder::new();
    assert!(matches!(
        handle_next_frame(Err(HttpError::InvalidFrame), &mut session, &mut decoder),
        Err(HttpError::InvalidFrame)
    ));
    assert!(matches!(
        handle_next_frame(Err(HttpError::UnableToConnect), &mut session, &mut decoder),
        Err(HttpError::UnableToConnect)
    ));
}

#[test]
fn test_settings_frame_needs_a_reply() {
    let mut session = session_with(1);
    let mut decoder = Decoder::new();
    let frame = HttpFrame::SettingsFrame(SettingsFrame::new());
    let reply = handle_frame(&mut session, &mut decoder, frame).unwrap();
    assert_eq!(reply, Some(SettingsFrame::new_ack()));
}

#[test]
fn test_data_frames_go_to_the_session() {
    let mut session = session_with(1);
    let frame = DataFrame { data: vec![1, 2], flags: 0, stream_id: 1, padding_len: None };
    handle_data_frame(&mut session, frame).unwrap();
    assert_eq!(session.get_stream(1).unwrap().body, vec![1, 2]);
    assert!(!session.get_stream(1).unwrap().closed);
    let mut decoder = Decoder::new();
    let last = DataFrame { data: vec![3], flags: 1, stream_id: 1, padding_len: None };
    let reply = handle_frame(&mut session, &mut decoder, HttpFrame::DataFrame(last));
    assert_eq!(reply.unwrap(), None);
    assert_eq!(session.get_stream(1).unwrap().body, vec![1, 2, 3]);
    assert!(session.get_stream(1).unwrap().closed);
}

#[test]
fn test_headers_frames_go_to_the_session() {
    let mut session = session_with(1);
    let mut decoder = Decoder::new();
    let frame = HeadersFrame::new(vec![0x88, 0x40, 1, b'a', 2, b'b', b'c'], 1);
    handle_headers_frame(&mut session, &mut decoder, frame).unwrap();
    let stream = session.get_stream(1).unwrap();
    assert_eq!(stream.headers, Some(vec![header(":status", "200"), header("a", "bc")]));
    assert!(!stream.closed);
    let again = HeadersFrame::new(vec![0xbe], 1);
    handle_headers_frame(&mut session, &mut decoder, again).unwrap();
    let stream = session.get_stream(1).unwrap();
    assert_eq!(stream.headers, Some(vec![header("a", "bc")]));
}

#[test]
fn test_decoded_headers_go_to_the_session() {
    let mut session = session_with(1);
    let frame = request_frame(vec![], 1);
    handle_headers(&mut session, &frame, Ok(vec![header("a", "b")])).unwrap();
    let stream = session.get_stream(1).unwrap();
    assert_eq!(stream.headers, Some(vec![header("a", "b")]));
    assert!(stream.closed);
}

#[test]
fn test_headers_that_cannot_be_decoded() {
    let mut session = session_with(1);
    let mut decoder = Decoder::new();
    let frame = request_frame(vec![0x80], 1);
    assert!(matches!(
        handle_headers_frame(&mut session, &mut decoder, frame),
        Err(HttpError::CompressionError(CompressionError::Decoder(_)))
    ));
    let frame = request_frame(vec![0x82, 0x3f], 1);
    assert!(matches!(
        handle_headers_frame(&mut session, &mut decoder, frame),
        Err(HttpError::CompressionError(CompressionError::SizeUpdate))
    ));
    let stream = session.get_stream(1).unwrap();
    assert!(stream.headers.is_none());
    assert!(!stream.closed);
}

#[test]
fn test_size_updates_in_header_blocks() {
    let mut decoder = Decoder::new();
    assert_eq!(decode_headers(&mut decoder, &[]).unwrap(), vec![]);
    assert_eq!(decode_headers(&mut decoder, &[0x3e]).unwrap(), vec![]);
    assert_eq!(
        decode_headers(&mut decoder, &[0x3f, 0xe1, 0x1f, 0x82]).unwrap(),
        vec![header(":method", "GET")]
    );
    for block in [
        vec![0x3f],
        vec![0x3f, 0x80],
        vec![0x3f, 0x80, 0x80, 0x80, 0x80, 0x80, 0x00],
        vec![0x82, 0x40, 1, b'a', 1, b'b', 0x3f],
        vec![0x04, 1, b'a', 0x3f],
        vec![0x1f, 0x00, 0, 0x3f],
    ] {
        assert!(matches!(
            decode_headers(&mut decoder, &block),
            Err(CompressionError::SizeUpdate)
        ));
    }
    for block in [vec![0x40, 0x3f], vec![0x80, 0x3f], vec![0x40, 1, b'a', 0x3f]] {
        assert!(matches!(
            decode_headers(&mut decoder, &block),
            Err(CompressionError::Decoder(_))
        ));
    }
}

#[test]
fn test_sound_part_of_a_header_block() {
    assert_eq!(count_sound(&[]), 0);
    assert_eq!(count_sound(&[0x82, 0x3e, 0x84]), 3);
    assert_eq!(count_sound(&[0x82, 0x3f, 0x80, 0x01, 0x3f]), 4);
    assert_eq!(count_sound(&[0x82, 0x7f, 0x3f]), 3);
    assert_eq!(count_sound(&[0x3f]), 0);
}

#[test]
fn test_headers_before_a_bad_size_update_are_kept() {
    let mut decoder = Decoder::new();
    let block = [0x40, 1, b'a', 1, b'b', 0x3f];
    assert!(matches!(
        decode_headers(&mut decoder, &block),
        Err(CompressionError::SizeUpdate)
    ));
    assert_eq!(decode_headers(&mut decoder, &[0xbe]).unwrap(), vec![header("a", "b")]);
}

#[test]
fn test_judge_headers() {
    let list = || vec![header("a", "b")];
    assert_eq!(judge_headers(Ok(list()), true).unwrap(), list());
    assert!(matches!(judge_headers(Ok(list()), false), Err(CompressionError::SizeUpdate)));
    for whole in [false, true] {
        assert!(matches!(
            judge_headers(Err(DecoderError::HeaderIndexOutOfBounds), whole),
            Err(CompressionError::Decoder(DecoderError::HeaderIndexOutOfBounds))
        ));
    }
}
