//! The frames that travel over an HTTP/2 connection: their values, and the
//! octets that stand for them.
use vstd::prelude::*;

pub mod data;
pub mod headers;
pub mod settings;

pub use data::{DataFlag, DataFrame, DataFrameView};
pub use headers::{HeadersFlag, HeadersFrame, HeadersFrameView, StreamDependency};
pub use settings::{HttpSetting, SettingsFrame, SettingsFrameView};

verus! {

/// The identifier of a stream on a connection.
pub type StreamId = u32;

/// The four parts of a frame header: the length of the payload, the type of
/// the frame, its flags, and the stream that it belongs to.
pub type FrameHeader = (u32, u8, u8, u32);

/// The type of a DATA frame.
pub const DATA_FRAME_TYPE: u8 = 0x0;

/// The type of a HEADERS frame.
pub const HEADERS_FRAME_TYPE: u8 = 0x1;

/// The type of a SETTINGS frame.
pub const SETTINGS_FRAME_TYPE: u8 = 0x4;

/// The flag by which a peer ends a stream.
pub const END_STREAM: u8 = 0x1;

/// The flag that marks a SETTINGS frame as an acknowledgement.
pub const ACK: u8 = 0x1;

/// The flag that marks the last fragment of a header block.
pub const END_HEADERS: u8 = 0x4;

/// The flag that marks a padded payload.
pub const PADDED: u8 = 0x8;

/// The flag that marks a HEADERS frame with a stream dependency.
pub const PRIORITY: u8 = 0x20;

/// One more than the largest payload length that a frame header can hold.
pub const LENGTH_LIMIT: u32 = 0x100_0000;

/// One more than the largest stream identifier.
pub const STREAM_LIMIT: u32 = 0x8000_0000;

/// The four octets of a number, the most significant first.
pub open spec fn octets_4(n: u32) -> Seq<u8> {
    seq![
        (n / 0x100_0000) as u8,
        (n / 0x1_0000 % 0x100) as u8,
        (n / 0x100 % 0x100) as u8,
        (n % 0x100) as u8,
    ]
}

/// The number that four octets stand for, the most significant first.
pub open spec fn number_4(octets: Seq<u8>) -> u32 {
    (octets[0] * 0x100_0000 + octets[1] * 0x1_0000 + octets[2] * 0x100 + octets[3]) as u32
}

/// The nine octets of a frame header. The length field has room for the low
/// 24 bits of the length.
pub open spec fn header_octets(header: FrameHeader) -> Seq<u8> {
    octets_4(header.0).skip(1) + seq![header.1, header.2] + octets_4(header.3)
}

/// The frame header that nine octets stand for. The most significant bit of
/// the stream identifier is reserved, and is ignored.
pub open spec fn header_parts(octets: Seq<u8>) -> FrameHeader {
    (
        (octets[0] * 0x1_0000 + octets[1] * 0x100 + octets[2]) as u32,
        octets[3],
        octets[4],
        number_4(octets.skip(5)) % STREAM_LIMIT,
    )
}

/// Whether every bit of `mask` is set in `flags`.
pub open spec fn flag_set(flags: u8, mask: u8) -> bool {
    flags & mask == mask
}

/// The octets of a whole frame: its header, then its payload.
pub open spec fn frame_octets(
    frame_type: u8,
    flags: u8,
    stream_id: StreamId,
    payload: Seq<u8>,
) -> Seq<u8> {
    header_octets(((payload.len() % 0x1_0000_0000) as u32, frame_type, flags, stream_id)) + payload
}

/// The payload that carries `body`: a padded payload starts with the length
/// of its padding, and ends with as many zeros.
pub open spec fn payload_octets(body: Seq<u8>, flags: u8, padding_len: Option<u8>) -> Seq<u8> {
    if flag_set(flags, PADDED) {
        let padding: u8 = padding_len.unwrap_or(0);
        seq![padding] + body + Seq::new(padding as nat, |i: int| 0u8)
    } else {
        body
    }
}

/// What a payload carries, with the length of its padding where it is padded.
/// There is none where the padding leaves no room for its own length.
pub open spec fn payload_body(payload: Seq<u8>, flags: u8) -> Option<(Seq<u8>, Option<u8>)> {
    if !flag_set(flags, PADDED) {
        Some((payload, None))
    } else if payload.len() == 0 || payload[0] >= payload.len() {
        None
    } else {
        Some((payload.subrange(1, payload.len() - payload[0]), Some(payload[0])))
    }
}

/// A frame as it comes off the wire: its header, and a payload that nobody
/// has looked at yet.
#[derive(PartialEq, Debug)]
pub struct RawFrame {
    pub header: FrameHeader,
    pub payload: Vec<u8>,
}

impl RawFrame {
    /// Joins a frame header and a payload.
    pub fn with_payload(header: FrameHeader, payload: Vec<u8>) -> (raw_frame: RawFrame)
        ensures
            raw_frame.header == header,
            raw_frame.payload == payload,
    {
        RawFrame { header, payload }
    }
}

/// A frame of a certain type.
pub trait Frame: Sized + View {
    /// The frame that a header and a payload stand for, if they are valid for
    /// a frame of this type.
    spec fn parsed(header: FrameHeader, payload: Seq<u8>) -> Option<Self::V>;

    /// The octets that stand for a frame.
    spec fn octets(frame: Self::V) -> Seq<u8>;

    /// Whether the parts of a frame agree with each other and fit into their
    /// fields.
    spec fn well_formed(frame: Self::V) -> bool;

    /// The octets of a frame give the frame back: the header announces
    /// exactly the payload that follows, and the two stand for the frame.
    proof fn law_read_back(frame: Self::V)
        requires
            Self::well_formed(frame),
        ensures
            Self::octets(frame).len() >= 9,
            header_parts(Self::octets(frame).take(9)).0 == Self::octets(frame).len() - 9,
            Self::parsed(header_parts(Self::octets(frame).take(9)), Self::octets(frame).skip(9))
                == Some(frame),
    ;

    /// Builds the frame that the raw frame stands for, if it is valid for a
    /// frame of this type.
    fn from_raw(raw_frame: RawFrame) -> (frame: Option<Self>)
        ensures
            match frame {
                Some(f) => Self::parsed(raw_frame.header, raw_frame.payload@) == Some(f@),
                None => Self::parsed(raw_frame.header, raw_frame.payload@) is None,
            },
    ;

    /// Serializes the frame into its octets.
    fn serialize(&self) -> (octets: Vec<u8>)
        ensures
            octets@ == Self::octets(self@),
    ;
}

/// Tests whether every bit of `mask` is set in `flags`.
pub(crate) fn has_flag(flags: u8, mask: u8) -> (set: bool)
    ensures
        set == flag_set(flags, mask),
{
    flags & mask == mask
}

/// Joins the header and the payload of a frame.
pub(crate) fn join_frame(
    frame_type: u8,
    flags: u8,
    stream_id: StreamId,
    payload: &Vec<u8>,
) -> (octets: Vec<u8>)
    ensures
        octets@ == frame_octets(frame_type, flags, stream_id, payload@),
{
    let length: u32 = (payload.len() as u64 % 0x1_0000_0000) as u32;
    let mut octets: Vec<u8> = pack_header(&(length, frame_type, flags, stream_id));
    octets.extend_from_slice(payload.as_slice());
    assert(octets@ =~= frame_octets(frame_type, flags, stream_id, payload@));
    octets
}

/// Builds the payload that carries `body`.
pub(crate) fn pad_payload(body: &Vec<u8>, flags: u8, padding_len: Option<u8>) -> (payload: Vec<u8>)
    ensures
        payload@ == payload_octets(body@, flags, padding_len),
{
    let mut payload: Vec<u8> = Vec::new();
    if has_flag(flags, PADDED) {
        let padding: u8 = padding_len.unwrap_or(0);
        payload.push(padding);
        payload.extend_from_slice(body.as_slice());
        assert(payload@ =~= seq![padding] + body@);
        let mut i: u8 = 0;
        while i < padding
            invariant
                i <= padding,
                payload@ == seq![padding] + body@ + Seq::new(i as nat, |j: int| 0u8),
            decreases padding - i,
        {
            payload.push(0);
            i = i + 1;
            assert(payload@ =~= seq![padding] + body@ + Seq::new(i as nat, |j: int| 0u8));
        }
    } else {
        payload.extend_from_slice(body.as_slice());
        assert(payload@ =~= body@);
    }
    payload
}

/// Takes the padding off a payload.
pub(crate) fn unpad_payload(payload: &Vec<u8>, flags: u8) -> (body: Option<(Vec<u8>, Option<u8>)>)
    ensures
        match body {
            Some((b, padding_len)) => payload_body(payload@, flags) == Some((b@, padding_len)),
            None => payload_body(payload@, flags) is None,
        },
{
    let octets: &[u8] = payload.as_slice();
    if !has_flag(flags, PADDED) {
        Some((vstd::slice::slice_to_vec(octets), None))
    } else if octets.len() == 0 || octets[0] as usize >= octets.len() {
        None
    } else {
        let end: usize = octets.len() - octets[0] as usize;
        let body: &[u8] = vstd::slice::slice_subrange(octets, 1, end);
        Some((vstd::slice::slice_to_vec(body), Some(octets[0])))
    }
}

/// Packs a number into four octets, the most significant first.
pub(crate) fn push_octets_4(buf: &mut Vec<u8>, n: u32)
    ensures
        final(buf)@ == old(buf)@ + octets_4(n),
{
    buf.push((n / 0x100_0000) as u8);
    buf.push((n / 0x1_0000 % 0x100) as u8);
    buf.push((n / 0x100 % 0x100) as u8);
    buf.push((n % 0x100) as u8);
    assert(buf@ =~= old(buf)@ + octets_4(n));
}

/// Reads the number that stands in four octets, from the index `at` on.
pub(crate) fn read_octets_4(octets: &[u8], at: usize) -> (n: u32)
    requires
        at + 4 <= octets@.len(),
    ensures
        n == number_4(octets@.skip(at as int)),
        n == number_4(octets@.subrange(at as int, at + 4)),
{
    octets[at] as u32 * 0x100_0000 + octets[at + 1] as u32 * 0x1_0000 + octets[at + 2] as u32
        * 0x100 + octets[at + 3] as u32
}

/// Unpacks the nine octets of a frame header.
pub fn unpack_header(octets: &[u8; 9]) -> (header: FrameHeader)
    ensures
        header == header_parts(octets@),
{
    let length: u32 = octets[0] as u32 * 0x1_0000 + octets[1] as u32 * 0x100 + octets[2] as u32;
    let stream_id: u32 = read_octets_4(octets.as_slice(), 5) % STREAM_LIMIT;
    (length, octets[3], octets[4], stream_id)
}

/// Packs a frame header into its nine octets.
pub fn pack_header(header: &FrameHeader) -> (octets: Vec<u8>)
    ensures
        octets@ == header_octets(*header),
{
    let mut octets: Vec<u8> = Vec::new();
    octets.push((header.0 / 0x1_0000 % 0x100) as u8);
    octets.push((header.0 / 0x100 % 0x100) as u8);
    octets.push((header.0 % 0x100) as u8);
    octets.push(header.1);
    octets.push(header.2);
    push_octets_4(&mut octets, header.3);
    assert(octets@ =~= header_octets(*header));
    octets
}

/// Four octets give back the number that was packed into them.
pub proof fn law_number_read_back(n: u32)
    ensures
        octets_4(n).len() == 4,
        number_4(octets_4(n)) == n,
{
}

/// Four octets are those of the number that they stand for.
pub proof fn law_number_octets(octets: Seq<u8>)
    requires
        octets.len() == 4,
    ensures
        octets_4(number_4(octets)) == octets,
{
    let a = octets[0];
    let b = octets[1];
    let c = octets[2];
    let d = octets[3];
    let n = number_4(octets);
    assert(n == a * 0x100_0000 + b * 0x1_0000 + c * 0x100 + d);
    assert(n / 0x100_0000 == a && n / 0x1_0000 % 0x100 == b && n / 0x100 % 0x100 == c && n % 0x100
        == d) by (bit_vector)
        requires
            n == a * 0x100_0000 + b * 0x1_0000 + c * 0x100 + d,
    ;
    assert(octets_4(n) =~= octets);
}

/// Unpacking gives back the frame header that was packed, as long as its
/// length and its stream identifier fit into their fields.
pub proof fn law_header_read_back(header: FrameHeader)
    requires
        header.0 < LENGTH_LIMIT,
        header.3 < STREAM_LIMIT,
    ensures
        header_octets(header).len() == 9,
        header_parts(header_octets(header)) == header,
{
    law_number_read_back(header.3);
    assert(header_octets(header).skip(5) =~= octets_4(header.3));
}

/// Packing gives back the octets that were unpacked, as long as the reserved
/// bit is clear.
pub proof fn law_header_octets(octets: Seq<u8>)
    requires
        octets.len() == 9,
        octets[5] < 0x80,
    ensures
        header_octets(header_parts(octets)) == octets,
{
    let length = seq![0u8, octets[0], octets[1], octets[2]];
    let stream_id = octets.skip(5);
    let header = header_parts(octets);
    law_number_octets(length);
    law_number_octets(stream_id);
    assert(header.0 == number_4(length));
    assert(header.3 == number_4(stream_id)) by {
        law_number_value(0, stream_id);
    }
    assert(octets_4(header.0) == length);
    assert(octets_4(header.3) == stream_id);
    assert(length.skip(1) + seq![octets[3], octets[4]] + stream_id =~= octets);
}

/// A payload gives back what was packed into it, as long as a length of
/// padding is given exactly where the payload is padded.
pub proof fn law_payload_read_back(body: Seq<u8>, flags: u8, padding_len: Option<u8>)
    requires
        padding_len is Some <==> flag_set(flags, PADDED),
    ensures
        payload_body(payload_octets(body, flags, padding_len), flags) == Some((body, padding_len)),
{
    let payload = payload_octets(body, flags, padding_len);
    if flag_set(flags, PADDED) {
        assert(payload.subrange(1, payload.len() - payload[0]) =~= body);
    }
}

/// The header of a frame's octets is the one that was packed, and what
/// follows it is the payload.
pub(crate) proof fn lemma_frame_octets(
    frame_type: u8,
    flags: u8,
    stream_id: StreamId,
    payload: Seq<u8>,
)
    requires
        payload.len() < LENGTH_LIMIT,
        stream_id < STREAM_LIMIT,
    ensures
        ({
            let octets = frame_octets(frame_type, flags, stream_id, payload);
            &&& octets.len() == 9 + payload.len()
            &&& header_parts(octets.take(9)) == (payload.len() as u32, frame_type, flags, stream_id)
            &&& octets.skip(9) == payload
        }),
{
    let octets = frame_octets(frame_type, flags, stream_id, payload);
    let header: FrameHeader = (payload.len() as u32, frame_type, flags, stream_id);
    law_header_read_back(header);
    assert(octets.take(9) =~= header_octets(header));
    assert(octets.skip(9) =~= payload);
}

/// Four octets stand for a number with the most significant first, whichever
/// way they are looked at.
pub proof fn law_number_value(n: u32, octets: Seq<u8>)
    requires
        octets.len() == 4,
    ensures
        octets_4(n).len() == 4,
        n == octets_4(n)[0] * 16777216 + octets_4(n)[1] * 65536 + octets_4(n)[2] * 256 + octets_4(
            n,
        )[3],
        number_4(octets) == octets[0] * 16777216 + octets[1] * 65536 + octets[2] * 256 + octets[3],
{
}

/// Where the parts of a frame header stand: three octets of length, one of
/// type, one of flags, four of stream identifier.
pub proof fn law_header_layout(header: FrameHeader)
    ensures
        ({
            let octets = header_octets(header);
            &&& octets.len() == 9
            &&& octets[0] * 65536 + octets[1] * 256 + octets[2] == header.0 as int % 16777216
            &&& octets[3] == header.1
            &&& octets[4] == header.2
            &&& octets[5] * 16777216 + octets[6] * 65536 + octets[7] * 256 + octets[8] == header.3
        }),
{
    let octets = header_octets(header);
    assert(octets[0] == octets_4(header.0)[1]);
    assert(octets[1] == octets_4(header.0)[2]);
    assert(octets[2] == octets_4(header.0)[3]);
    assert(octets[5] == octets_4(header.3)[0]);
    assert(octets[6] == octets_4(header.3)[1]);
    assert(octets[7] == octets_4(header.3)[2]);
    assert(octets[8] == octets_4(header.3)[3]);
}

/// What a received frame header says: every octet counts but the reserved
/// bit, and nothing else does.
pub proof fn law_header_meaning(octets: Seq<u8>)
    requires
        octets.len() == 9,
    ensures
        header_parts(octets).0 == octets[0] * 65536 + octets[1] * 256 + octets[2],
        header_parts(octets).1 == octets[3],
        header_parts(octets).2 == octets[4],
        header_parts(octets).3 == octets[5] as int % 128 * 16777216 + octets[6] * 65536 + octets[7]
            * 256 + octets[8],
{
    let tail = octets.skip(5);
    assert(number_4(tail) == tail[0] * 16777216 + tail[1] * 65536 + tail[2] * 256 + tail[3]);
}

/// A frame on the wire is its header and then its payload, unchanged. The
/// header announces the length of the payload.
pub proof fn law_frame_layout(frame_type: u8, flags: u8, stream_id: StreamId, payload: Seq<u8>)
    ensures
        ({
            let octets = frame_octets(frame_type, flags, stream_id, payload);
            &&& octets.len() == 9 + payload.len()
            &&& octets.skip(9) == payload
            &&& octets[0] * 65536 + octets[1] * 256 + octets[2] == payload.len() as int % 16777216
            &&& octets[3] == frame_type
            &&& octets[4] == flags
            &&& octets[5] * 16777216 + octets[6] * 65536 + octets[7] * 256 + octets[8] == stream_id
        }),
{
    let octets = frame_octets(frame_type, flags, stream_id, payload);
    let header: FrameHeader = (
        (payload.len() % 0x1_0000_0000) as u32,
        frame_type,
        flags,
        stream_id,
    );
    law_header_layout(header);
    assert(octets.skip(9) =~= payload);
    assert(octets.take(9) =~= header_octets(header));
    assert(octets.take(9)[0] == octets[0]);
    assert(octets.take(9)[1] == octets[1]);
    assert(octets.take(9)[2] == octets[2]);
    assert(octets.take(9)[5] == octets[5]);
    assert(octets.take(9)[8] == octets[8]);
}

/// A flag is set where its bits are.
pub proof fn law_flag_bits(flags: u8, mask: u8)
    ensures
        flag_set(flags, mask) <==> flags & mask == mask,
{
}

/// What a padded payload is made of: the length of the padding, what the
/// payload carries, and as many zeros. One that is not padded is what it
/// carries.
pub proof fn law_payload_layout(body: Seq<u8>, flags: u8, padding_len: Option<u8>)
    ensures
        flags & 0x8 == 0 ==> payload_octets(body, flags, padding_len) == body,
        flags & 0x8 == 0x8 ==> {
            let payload = payload_octets(body, flags, padding_len);
            let padding = match padding_len {
                Some(n) => n as int,
                None => 0,
            };
            &&& payload.len() == 1 + body.len() + padding
            &&& payload[0] == padding
            &&& payload.subrange(1, 1int + body.len()) == body
            &&& forall|i: int| 1 + body.len() <= i < payload.len() ==> payload[i] == 0
        },
{
    if flags & 0x8 == 0x8 {
        assert(payload_octets(body, flags, padding_len).subrange(1, 1int + body.len()) =~= body);
    }
}

/// What a received payload carries: all of it where it is not padded, and
/// otherwise what lies between the length of the padding and the padding. It
/// is invalid exactly where the padding takes up more than there is.
pub proof fn law_payload_meaning(payload: Seq<u8>, flags: u8)
    ensures
        flags & 0x8 == 0 ==> payload_body(payload, flags) == Some((payload, None::<u8>)),
        flags & 0x8 == 0x8 ==> (payload_body(payload, flags) is Some <==> payload.len() > 0
            && payload[0] < payload.len()),
        flags & 0x8 == 0x8 && payload.len() > 0 && payload[0] < payload.len() ==> payload_body(
            payload,
            flags,
        ) == Some((payload.subrange(1, payload.len() - payload[0]), Some(payload[0]))),
{
}

} // verus!
