use hyper_wire::http2::frame::{
    pack_header, unpack_header, DataFlag, DataFrame, Frame, HeadersFlag, HeadersFrame, HttpSetting,
    RawFrame, SettingsFrame, StreamDependency,
};
use hyper_wire::http2::http2::parse_frame;
use hyper_wire::http2::HttpError;

fn raw(octets: &[u8]) -> RawFrame {
    let mut header = [0u8; 9];
    header.copy_from_slice(&octets[..9]);
    RawFrame::with_payload(unpack_header(&header), octets[9..].to_vec())
}

#[test]
fn test_frame_header_octets() {
    let header = (0x01_02_03, 4, 5, 0x06_07_08_09);
    assert_eq!(pack_header(&header), vec![1, 2, 3, 4, 5, 6, 7, 8, 9]);
    assert_eq!(unpack_header(&[1, 2, 3, 4, 5, 6, 7, 8, 9]), header);
}

#[test]
fn test_frame_header_reserved_bit_is_ignored() {
    let octets = [0xff, 0xff, 0xff, 0xff, 0xff, 0xff, 0xff, 0xff, 0xff];
    assert_eq!(unpack_header(&octets), (0xff_ffff, 0xff, 0xff, 0x7fff_ffff));
}

#[test]
fn test_data_frame_octets() {
    let frame = DataFrame { data: vec![7, 8], flags: 1, stream_id: 3, padding_len: None };
    let octets = frame.serialize();
    assert_eq!(octets, vec![0, 0, 2, 0, 1, 0, 0, 0, 3, 7, 8]);
    assert!(frame.is_set(DataFlag::EndStream));
    assert!(!frame.is_set(DataFlag::Padded));
    assert_eq!(frame.get_stream_id(), 3);
    assert_eq!(DataFrame::from_raw(raw(&octets)), Some(frame));
}

#[test]
fn test_padded_data_frame_octets() {
    let frame = DataFrame { data: vec![7, 8], flags: 8, stream_id: 3, padding_len: Some(3) };
    let octets = frame.serialize();
    assert_eq!(octets, vec![0, 0, 6, 0, 8, 0, 0, 0, 3, 3, 7, 8, 0, 0, 0]);
    assert_eq!(DataFrame::from_raw(raw(&octets)), Some(frame));
}

#[test]
fn test_data_frame_with_too_much_padding_is_invalid() {
    assert_eq!(DataFrame::from_raw(raw(&[0, 0, 2, 0, 8, 0, 0, 0, 3, 2, 0])), None);
    assert_eq!(DataFrame::from_raw(raw(&[0, 0, 0, 0, 8, 0, 0, 0, 3])), None);
    let all_padding = DataFrame::from_raw(raw(&[0, 0, 2, 0, 8, 0, 0, 0, 3, 1, 0])).unwrap();
    assert!(all_padding.data.is_empty());
}

#[test]
fn test_frame_of_another_type_is_invalid() {
    assert_eq!(DataFrame::from_raw(raw(&[0, 0, 0, 1, 0, 0, 0, 0, 3])), None);
    assert_eq!(HeadersFrame::from_raw(raw(&[0, 0, 0, 0, 0, 0, 0, 0, 3])), None);
    assert_eq!(SettingsFrame::from_raw(raw(&[0, 0, 0, 0, 0, 0, 0, 0, 0])), None);
}

#[test]
fn test_frame_of_another_length_is_invalid() {
    let short = RawFrame::with_payload((3, 0, 0, 1), vec![1, 2]);
    assert_eq!(DataFrame::from_raw(short), None);
}

#[test]
fn test_stream_identifiers_of_frames() {
    assert_eq!(DataFrame::from_raw(raw(&[0, 0, 0, 0, 0, 0, 0, 0, 0])), None);
    assert_eq!(HeadersFrame::from_raw(raw(&[0, 0, 0, 1, 0, 0, 0, 0, 0])), None);
    assert_eq!(SettingsFrame::from_raw(raw(&[0, 0, 0, 4, 0, 0, 0, 0, 1])), None);
}

#[test]
fn test_headers_frame_octets() {
    let mut frame = HeadersFrame::new(vec![0x82], 5);
    assert_eq!(frame.flags, 0);
    frame.set_flag(HeadersFlag::EndHeaders);
    assert!(!frame.is_end_of_stream());
    frame.set_flag(HeadersFlag::EndStream);
    assert!(frame.is_end_of_stream());
    assert!(frame.is_set(HeadersFlag::EndHeaders));
    let octets = frame.serialize();
    assert_eq!(octets, vec![0, 0, 1, 1, 5, 0, 0, 0, 5, 0x82]);
    assert_eq!(HeadersFrame::from_raw(raw(&octets)), Some(frame));
}

#[test]
fn test_headers_frame_with_dependency() {
    let frame = HeadersFrame {
        header_fragment: vec![0x82, 0x84],
        flags: 0x28,
        stream_id: 5,
        stream_dep: Some(StreamDependency { stream_id: 3, weight: 200, is_exclusive: true }),
        padding_len: Some(1),
    };
    assert!(frame.is_set(HeadersFlag::Priority));
    assert!(frame.is_set(HeadersFlag::Padded));
    let octets = frame.serialize();
    assert_eq!(
        octets,
        vec![0, 0, 9, 1, 0x28, 0, 0, 0, 5, 1, 0x80, 0, 0, 3, 200, 0x82, 0x84, 0]
    );
    assert_eq!(HeadersFrame::from_raw(raw(&octets)), Some(frame));
}

#[test]
fn test_headers_frame_without_room_for_dependency_is_invalid() {
    let octets = [0, 0, 4, 1, 0x20, 0, 0, 0, 5, 0, 0, 0, 3];
    assert_eq!(HeadersFrame::from_raw(raw(&octets)), None);
}

#[test]
fn test_settings_frame_octets() {
    let mut frame = SettingsFrame::new();
    frame.add_setting(HttpSetting::HeaderTableSize(1));
    frame.add_setting(HttpSetting::EnablePush(0));
    frame.add_setting(HttpSetting::MaxConcurrentStreams(3));
    frame.add_setting(HttpSetting::InitialWindowSize(0x0102_0304));
    frame.add_setting(HttpSetting::MaxFrameSize(5));
    frame.add_setting(HttpSetting::MaxHeaderListSize(6));
    let octets = frame.serialize();
    assert_eq!(&octets[..9], &[0, 0, 36, 4, 0, 0, 0, 0, 0]);
    assert_eq!(&octets[9..21], &[0, 1, 0, 0, 0, 1, 0, 2, 0, 0, 0, 0]);
    assert_eq!(&octets[27..33], &[0, 4, 1, 2, 3, 4]);
    assert!(!frame.is_ack());
    assert_eq!(SettingsFrame::from_raw(raw(&octets)), Some(frame));
}

#[test]
fn test_unknown_settings_are_left_out() {
    let mut octets = vec![0, 0, 18, 4, 0, 0, 0, 0, 0];
    octets.extend_from_slice(&[0, 7, 0, 0, 0, 1]);
    octets.extend_from_slice(&[0, 2, 0, 0, 0, 1]);
    octets.extend_from_slice(&[1, 2, 0, 0, 0, 1]);
    let frame = SettingsFrame::from_raw(raw(&octets)).unwrap();
    assert_eq!(frame.settings, vec![HttpSetting::EnablePush(1)]);
}

#[test]
fn test_settings_acknowledgement() {
    let frame = SettingsFrame::new_ack();
    assert!(frame.is_ack());
    assert_eq!(frame.serialize(), vec![0, 0, 0, 4, 1, 0, 0, 0, 0]);
    let full = [0, 0, 6, 4, 1, 0, 0, 0, 0, 0, 2, 0, 0, 0, 0];
    assert_eq!(SettingsFrame::from_raw(raw(&full)), None);
    let cut = [0, 0, 5, 4, 0, 0, 0, 0, 0, 0, 2, 0, 0, 0];
    assert_eq!(SettingsFrame::from_raw(raw(&cut)), None);
}

#[test]
fn test_parse_frame() {
    let octets = [0, 0, 2, 0, 1, 0, 0, 0, 3, 7, 8];
    let frame: DataFrame = parse_frame(raw(&octets)).unwrap();
    assert_eq!(frame.data, vec![7, 8]);
    assert!(matches!(
        parse_frame::<SettingsFrame>(raw(&octets)),
        Err(HttpError::InvalidFrame)
    ));
}
