//! HEADERS frames.
use vstd::prelude::*;

use super::{
    flag_set, frame_octets, has_flag, join_frame, number_4, octets_4, pad_payload, payload_body,
    payload_octets, push_octets_4, read_octets_4, unpad_payload, Frame, FrameHeader, RawFrame,
    StreamId, END_HEADERS, END_STREAM, HEADERS_FRAME_TYPE, LENGTH_LIMIT, PADDED, PRIORITY,
    STREAM_LIMIT,
};
use super::{
    header_parts, law_frame_layout, law_number_read_back, law_payload_read_back, lemma_frame_octets,
};

verus! {

/// The flags of a HEADERS frame.
#[derive(PartialEq, Eq, Structural, Debug, Copy, Clone)]
pub enum HeadersFlag {
    EndStream,
    EndHeaders,
    Padded,
    Priority,
}

impl HeadersFlag {
    /// The bit that stands for the flag.
    pub open spec fn mask(self) -> u8 {
        match self {
            HeadersFlag::EndStream => END_STREAM,
            HeadersFlag::EndHeaders => END_HEADERS,
            HeadersFlag::Padded => PADDED,
            HeadersFlag::Priority => PRIORITY,
        }
    }

    /// Returns the bit that stands for the flag.
    pub fn bitmask(&self) -> (mask: u8)
        ensures
            mask == self.mask(),
    {
        match self {
            HeadersFlag::EndStream => END_STREAM,
            HeadersFlag::EndHeaders => END_HEADERS,
            HeadersFlag::Padded => PADDED,
            HeadersFlag::Priority => PRIORITY,
        }
    }
}

/// A dependency of one stream on another.
#[derive(PartialEq, Eq, Structural, Debug, Copy, Clone)]
pub struct StreamDependency {
    /// The stream that is depended on.
    pub stream_id: StreamId,
    pub weight: u8,
    pub is_exclusive: bool,
}

/// The five octets of a stream dependency. The most significant bit tells
/// whether the dependency is exclusive.
pub open spec fn dependency_octets(dependency: StreamDependency) -> Seq<u8> {
    let id = dependency.stream_id % STREAM_LIMIT;
    octets_4(
        if dependency.is_exclusive {
            (id + STREAM_LIMIT) as u32
        } else {
            id
        },
    ).push(dependency.weight)
}

/// The stream dependency that five octets stand for.
pub open spec fn dependency_parts(octets: Seq<u8>) -> StreamDependency {
    StreamDependency {
        stream_id: number_4(octets) % STREAM_LIMIT,
        weight: octets[4],
        is_exclusive: number_4(octets) >= STREAM_LIMIT,
    }
}

/// What a HEADERS frame carries inside its padding: the stream dependency,
/// where there is one, and the header block fragment.
pub open spec fn body_octets(
    header_fragment: Seq<u8>,
    flags: u8,
    stream_dep: Option<StreamDependency>,
) -> Seq<u8> {
    match stream_dep {
        Some(dependency) if flag_set(flags, PRIORITY) => dependency_octets(dependency)
            + header_fragment,
        _ => header_fragment,
    }
}

/// The header block fragment and the stream dependency that a HEADERS frame
/// carries inside its padding.
pub open spec fn body_parts(body: Seq<u8>, flags: u8) -> Option<
    (Seq<u8>, Option<StreamDependency>),
> {
    if !flag_set(flags, PRIORITY) {
        Some((body, None))
    } else if body.len() < 5 {
        None
    } else {
        Some((body.skip(5), Some(dependency_parts(body))))
    }
}

/// The octets of a stream dependency give the dependency back.
pub proof fn law_dependency_read_back(dependency: StreamDependency)
    requires
        dependency.stream_id < STREAM_LIMIT,
    ensures
        dependency_octets(dependency).len() == 5,
        dependency_parts(dependency_octets(dependency)) == dependency,
{
    let id = dependency.stream_id;
    let n: u32 = if dependency.is_exclusive {
        (id + STREAM_LIMIT) as u32
    } else {
        id
    };
    law_number_read_back(n);
    assert(number_4(dependency_octets(dependency)) == number_4(octets_4(n)));
}

/// A frame that opens a stream, or answers on one, with headers.
#[derive(PartialEq, Debug)]
pub struct HeadersFrame {
    /// The fragment of a compressed header block.
    pub header_fragment: Vec<u8>,
    pub flags: u8,
    pub stream_id: StreamId,
    /// The stream dependency, where the frame has one.
    pub stream_dep: Option<StreamDependency>,
    /// The length of the padding, where the frame is padded.
    pub padding_len: Option<u8>,
}

/// The value of a [`HeadersFrame`].
pub struct HeadersFrameView {
    pub header_fragment: Seq<u8>,
    pub flags: u8,
    pub stream_id: StreamId,
    pub stream_dep: Option<StreamDependency>,
    pub padding_len: Option<u8>,
}

impl View for HeadersFrame {
    type V = HeadersFrameView;

    open spec fn view(&self) -> HeadersFrameView {
        HeadersFrameView {
            header_fragment: self.header_fragment@,
            flags: self.flags,
            stream_id: self.stream_id,
            stream_dep: self.stream_dep,
            padding_len: self.padding_len,
        }
    }
}

impl HeadersFrameView {
    /// The whole payload of the frame.
    pub open spec fn payload(self) -> Seq<u8> {
        payload_octets(
            body_octets(self.header_fragment, self.flags, self.stream_dep),
            self.flags,
            self.padding_len,
        )
    }
}

impl HeadersFrame {
    /// Creates a frame without flags.
    pub fn new(header_fragment: Vec<u8>, stream_id: StreamId) -> (frame: HeadersFrame)
        ensures
            frame@ == (HeadersFrameView {
                header_fragment: header_fragment@,
                flags: 0,
                stream_id,
                stream_dep: None,
                padding_len: None,
            }),
    {
        HeadersFrame { header_fragment, flags: 0, stream_id, stream_dep: None, padding_len: None }
    }

    /// Returns the stream that the frame belongs to.
    pub fn get_stream_id(&self) -> (stream_id: StreamId)
        ensures
            stream_id == self.stream_id,
    {
        self.stream_id
    }

    /// Tests whether a flag is set.
    pub fn is_set(&self, flag: HeadersFlag) -> (set: bool)
        ensures
            set == flag_set(self.flags, flag.mask()),
    {
        has_flag(self.flags, flag.bitmask())
    }

    /// Sets a flag.
    pub fn set_flag(&mut self, flag: HeadersFlag)
        ensures
            final(self)@ == (HeadersFrameView {
                flags: old(self).flags | flag.mask(),
                ..old(self)@
            }),
    {
        self.flags = self.flags | flag.bitmask();
    }

    /// Tests whether the frame ends its stream.
    pub fn is_end_of_stream(&self) -> (ends: bool)
        ensures
            ends == flag_set(self.flags, END_STREAM),
    {
        self.is_set(HeadersFlag::EndStream)
    }
}

/// Builds what a HEADERS frame carries inside its padding.
fn join_body(
    header_fragment: &Vec<u8>,
    flags: u8,
    stream_dep: Option<StreamDependency>,
) -> (body: Vec<u8>)
    ensures
        body@ == body_octets(header_fragment@, flags, stream_dep),
{
    let mut body: Vec<u8> = Vec::new();
    if let Some(dependency) = stream_dep {
        if has_flag(flags, PRIORITY) {
            let id: u32 = dependency.stream_id % STREAM_LIMIT;
            let number: u32 = if dependency.is_exclusive {
                id + STREAM_LIMIT
            } else {
                id
            };
            push_octets_4(&mut body, number);
            body.push(dependency.weight);
            assert(body@ =~= dependency_octets(dependency));
        }
    }
    body.extend_from_slice(header_fragment.as_slice());
    assert(body@ =~= body_octets(header_fragment@, flags, stream_dep));
    body
}

/// Takes apart what a HEADERS frame carries inside its padding.
fn split_body(body: Vec<u8>, flags: u8) -> (parts: Option<(Vec<u8>, Option<StreamDependency>)>)
    ensures
        match parts {
            Some((fragment, dependency)) => body_parts(body@, flags) == Some(
                (fragment@, dependency),
            ),
            None => body_parts(body@, flags) is None,
        },
{
    if !has_flag(flags, PRIORITY) {
        return Some((body, None));
    }
    let octets: &[u8] = body.as_slice();
    if octets.len() < 5 {
        return None;
    }
    let number: u32 = read_octets_4(octets, 0);
    let dependency = StreamDependency {
        stream_id: number % STREAM_LIMIT,
        weight: octets[4],
        is_exclusive: number >= STREAM_LIMIT,
    };
    let fragment: &[u8] = vstd::slice::slice_subrange(octets, 5, octets.len());
    assert(body@.skip(0) =~= body@);
    assert(fragment@ =~= body@.skip(5));
    Some((vstd::slice::slice_to_vec(fragment), Some(dependency)))
}

impl Frame for HeadersFrame {
    open spec fn parsed(header: FrameHeader, payload: Seq<u8>) -> Option<HeadersFrameView> {
        if header.1 != HEADERS_FRAME_TYPE || header.0 != payload.len() || header.3 == 0 {
            None
        } else {
            match payload_body(payload, header.2) {
                Some((body, padding_len)) => match body_parts(body, header.2) {
                    Some((header_fragment, stream_dep)) => Some(
                        HeadersFrameView {
                            header_fragment,
                            flags: header.2,
                            stream_id: header.3,
                            stream_dep,
                            padding_len,
                        },
                    ),
                    None => None,
                },
                None => None,
            }
        }
    }

    open spec fn octets(frame: HeadersFrameView) -> Seq<u8> {
        frame_octets(HEADERS_FRAME_TYPE, frame.flags, frame.stream_id, frame.payload())
    }

    open spec fn well_formed(frame: HeadersFrameView) -> bool {
        &&& 0 < frame.stream_id < STREAM_LIMIT
        &&& frame.padding_len is Some <==> flag_set(frame.flags, PADDED)
        &&& frame.stream_dep is Some <==> flag_set(frame.flags, PRIORITY)
        &&& frame.stream_dep matches Some(dependency) ==> dependency.stream_id < STREAM_LIMIT
        &&& frame.payload().len() < LENGTH_LIMIT
    }

    proof fn law_read_back(frame: HeadersFrameView) {
        let body = body_octets(frame.header_fragment, frame.flags, frame.stream_dep);
        lemma_frame_octets(HEADERS_FRAME_TYPE, frame.flags, frame.stream_id, frame.payload());
        law_payload_read_back(body, frame.flags, frame.padding_len);
        if let Some(dependency) = frame.stream_dep {
            law_dependency_read_back(dependency);
            assert(body.skip(5) =~= frame.header_fragment);
            assert(dependency_parts(body) == dependency_parts(dependency_octets(dependency)));
        }
    }

    fn from_raw(raw_frame: RawFrame) -> Option<HeadersFrame> {
        let (len, frame_type, flags, stream_id) = raw_frame.header;
        if frame_type != HEADERS_FRAME_TYPE || len as usize != raw_frame.payload.len() || stream_id
            == 0 {
            return None;
        }
        match unpad_payload(&raw_frame.payload, flags) {
            Some((body, padding_len)) => match split_body(body, flags) {
                Some((header_fragment, stream_dep)) => Some(
                    HeadersFrame { header_fragment, flags, stream_id, stream_dep, padding_len },
                ),
                None => None,
            },
            None => None,
        }
    }

    fn serialize(&self) -> Vec<u8> {
        let body: Vec<u8> = join_body(&self.header_fragment, self.flags, self.stream_dep);
        let payload: Vec<u8> = pad_payload(&body, self.flags, self.padding_len);
        join_frame(HEADERS_FRAME_TYPE, self.flags, self.stream_id, &payload)
    }
}

/// The bits of the flags.
pub proof fn law_headers_flags()
    ensures
        HeadersFlag::EndStream.mask() == 0x1,
        HeadersFlag::EndHeaders.mask() == 0x4,
        HeadersFlag::Padded.mask() == 0x8,
        HeadersFlag::Priority.mask() == 0x20,
{
}

/// Where the parts of a stream dependency stand: one bit tells whether it is
/// exclusive, 31 bits name the stream, and the last octet is the weight.
pub proof fn law_dependency_layout(dependency: StreamDependency)
    ensures
        ({
            let octets = dependency_octets(dependency);
            &&& octets.len() == 5
            &&& dependency.is_exclusive <==> octets[0] >= 128
            &&& octets[0] as int % 128 * 16777216 + octets[1] * 65536 + octets[2] * 256 + octets[3]
                == dependency.stream_id as int % 0x8000_0000
            &&& octets[4] == dependency.weight
        }),
{
    let id = dependency.stream_id % STREAM_LIMIT;
    let n: u32 = if dependency.is_exclusive {
        (id + STREAM_LIMIT) as u32
    } else {
        id
    };
    let octets = dependency_octets(dependency);
    assert(octets =~= octets_4(n).push(dependency.weight));
    assert(octets[0] == octets_4(n)[0]);
    assert(octets[1] == octets_4(n)[1]);
    assert(octets[2] == octets_4(n)[2]);
    assert(octets[3] == octets_4(n)[3]);
}

/// What a received stream dependency says.
pub proof fn law_dependency_meaning(octets: Seq<u8>)
    requires
        octets.len() >= 5,
    ensures
        dependency_parts(octets).is_exclusive <==> octets[0] >= 128,
        dependency_parts(octets).stream_id == octets[0] as int % 128 * 16777216 + octets[1] * 65536
            + octets[2] * 256 + octets[3],
        dependency_parts(octets).weight == octets[4],
{
    assert(number_4(octets) == octets[0] * 16777216 + octets[1] * 65536 + octets[2] * 256
        + octets[3]);
}

/// A HEADERS frame on the wire: its header, then the length of the padding
/// where the frame is padded, the five octets of its dependency where it has
/// one, the fragment as it is, and the padding.
pub proof fn law_headers_layout(frame: HeadersFrame)
    ensures
        ({
            let octets = HeadersFrame::octets(frame@);
            let payload = octets.skip(9);
            let start: int = if frame.flags & 0x8 == 0x8 {
                1
            } else {
                0
            };
            let padding: int = match frame.padding_len {
                Some(n) if frame.flags & 0x8 == 0x8 => n as int,
                _ => 0,
            };
            let dependency: int = if frame.flags & 0x20 == 0x20 && frame.stream_dep is Some {
                5
            } else {
                0
            };
            let end = start + dependency + frame.header_fragment@.len();
            &&& octets.len() >= 9
            &&& octets[0] * 65536 + octets[1] * 256 + octets[2] == payload.len() as int % 16777216
            &&& octets[3] == 1
            &&& octets[4] == frame.flags
            &&& octets[5] * 16777216 + octets[6] * 65536 + octets[7] * 256 + octets[8]
                == frame.stream_id
            &&& payload.len() == end + padding
            &&& start == 1 ==> payload[0] == padding
            &&& dependency == 5 ==> payload.subrange(start, start + 5) == dependency_octets(
                frame.stream_dep->0,
            )
            &&& payload.subrange(start + dependency, end) == frame.header_fragment@
            &&& forall|i: int| end <= i < payload.len() ==> payload[i] == 0
        }),
{
    let fragment = frame.header_fragment@;
    let body = body_octets(fragment, frame.flags, frame.stream_dep);
    let payload = frame@.payload();
    law_frame_layout(1, frame.flags, frame.stream_id, payload);
    assert(frame.flags & 0x8 == 0x8 || !flag_set(frame.flags, PADDED));
    let start: int = if frame.flags & 0x8 == 0x8 {
        1
    } else {
        0
    };
    assert(payload.subrange(start, start + body.len()) =~= body);
    if frame.flags & 0x20 == 0x20 && frame.stream_dep is Some {
        law_dependency_layout(frame.stream_dep->0);
        assert(payload.subrange(start, start + 5) =~= dependency_octets(frame.stream_dep->0));
        assert(payload.subrange(start + 5, start + 5 + fragment.len()) =~= fragment);
    } else {
        assert(payload.subrange(start, start + fragment.len()) =~= fragment);
    }
}

/// Which headers and payloads are a HEADERS frame: those of the right type
/// and length, on a stream, whose padding fits, with room for the dependency
/// that they say they have.
pub proof fn law_headers_validity(header: FrameHeader, payload: Seq<u8>)
    ensures
        HeadersFrame::parsed(header, payload) is Some <==> {
            let start: int = if header.2 & 0x8 == 0x8 {
                1
            } else {
                0
            };
            let padding: int = if header.2 & 0x8 == 0x8 {
                payload[0] as int
            } else {
                0
            };
            &&& header.1 == 1
            &&& header.0 == payload.len()
            &&& header.3 != 0
            &&& start + padding <= payload.len()
            &&& header.2 & 0x20 == 0x20 ==> start + 5 + padding <= payload.len()
        },
{
}

/// What a received HEADERS frame holds: the flags and the stream of its
/// header, the dependency where it says that it has one, and all the rest of
/// its payload but the padding as the fragment.
pub proof fn law_headers_meaning(header: FrameHeader, payload: Seq<u8>, frame: HeadersFrame)
    requires
        HeadersFrame::parsed(header, payload) == Some(frame@),
    ensures
        ({
            let start: int = if header.2 & 0x8 == 0x8 {
                1
            } else {
                0
            };
            let end = payload.len() - (if header.2 & 0x8 == 0x8 {
                payload[0] as int
            } else {
                0
            });
            &&& frame.flags == header.2
            &&& frame.stream_id == header.3
            &&& frame.padding_len == (if header.2 & 0x8 == 0x8 {
                Some(payload[0])
            } else {
                None
            })
            &&& header.2 & 0x20 != 0x20 ==> frame.stream_dep is None && frame.header_fragment@
                == payload.subrange(start, end)
            &&& header.2 & 0x20 == 0x20 ==> frame.stream_dep == Some(
                dependency_parts(payload.subrange(start, start + 5)),
            ) && frame.header_fragment@ == payload.subrange(start + 5, end)
        }),
{
    let start: int = if header.2 & 0x8 == 0x8 {
        1
    } else {
        0
    };
    let end = payload.len() - (if header.2 & 0x8 == 0x8 {
        payload[0] as int
    } else {
        0
    });
    let (body, _) = payload_body(payload, header.2)->0;
    assert(body =~= payload.subrange(start, end));
    if header.2 & 0x20 == 0x20 {
        assert(body.skip(5) =~= payload.subrange(start + 5, end));
        let dependency = payload.subrange(start, start + 5);
        assert(body[0] == dependency[0]);
        assert(body[1] == dependency[1]);
        assert(body[2] == dependency[2]);
        assert(body[3] == dependency[3]);
        assert(body[4] == dependency[4]);
    }
}

/// A HEADERS frame on a stream, with padding and a dependency exactly where it
/// says so and short enough for its length to be announced, is read back as it
/// was.
pub proof fn law_headers_read_back(frame: HeadersFrame)
    requires
        0 < frame.stream_id < 0x8000_0000,
        frame.flags & 0x8 == 0 <==> frame.padding_len is None,
        frame.flags & 0x20 == 0 <==> frame.stream_dep is None,
        frame.stream_dep matches Some(dependency) ==> dependency.stream_id < 0x8000_0000,
        frame.header_fragment@.len() + 261 < 0x100_0000,
    ensures
        ({
            let octets = HeadersFrame::octets(frame@);
            HeadersFrame::parsed(header_parts(octets.take(9)), octets.skip(9)) == Some(frame@)
        }),
{
    let flags = frame.flags;
    assert(flags & 0x8 == 0 || flags & 0x8 == 0x8) by (bit_vector);
    assert(flags & 0x20 == 0 || flags & 0x20 == 0x20) by (bit_vector);
    law_headers_layout(frame);
    law_frame_layout(1, frame.flags, frame.stream_id, frame@.payload());
    HeadersFrame::law_read_back(frame@);
}

} // verus!
