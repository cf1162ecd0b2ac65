//! DATA frames.
use vstd::prelude::*;

use super::{
    flag_set, frame_octets, has_flag, join_frame, pad_payload, payload_body, payload_octets,
    unpad_payload, Frame, FrameHeader, RawFrame, StreamId, DATA_FRAME_TYPE, END_STREAM,
    LENGTH_LIMIT, PADDED, STREAM_LIMIT,
};
use super::{
    header_parts, law_frame_layout, law_payload_layout, law_payload_read_back, lemma_frame_octets,
};

verus! {

/// The flags of a DATA frame.
#[derive(PartialEq, Eq, Structural, Debug, Copy, Clone)]
pub enum DataFlag {
    EndStream,
    Padded,
}

impl DataFlag {
    /// The bit that stands for the flag.
    pub open spec fn mask(self) -> u8 {
        match self {
            DataFlag::EndStream => END_STREAM,
            DataFlag::Padded => PADDED,
        }
    }

    /// Returns the bit that stands for the flag.
    pub fn bitmask(&self) -> (mask: u8)
        ensures
            mask == self.mask(),
    {
        match self {
            DataFlag::EndStream => END_STREAM,
            DataFlag::Padded => PADDED,
        }
    }
}

/// A frame that carries octets of a stream.
#[derive(PartialEq, Debug)]
pub struct DataFrame {
    /// The octets, without padding.
    pub data: Vec<u8>,
    pub flags: u8,
    pub stream_id: StreamId,
    /// The length of the padding, where the frame is padded.
    pub padding_len: Option<u8>,
}

/// The value of a [`DataFrame`].
pub struct DataFrameView {
    pub data: Seq<u8>,
    pub flags: u8,
    pub stream_id: StreamId,
    pub padding_len: Option<u8>,
}

impl View for DataFrame {
    type V = DataFrameView;

    open spec fn view(&self) -> DataFrameView {
        DataFrameView {
            data: self.data@,
            flags: self.flags,
            stream_id: self.stream_id,
            padding_len: self.padding_len,
        }
    }
}

impl DataFrame {
    /// Returns the stream that the frame belongs to.
    pub fn get_stream_id(&self) -> (stream_id: StreamId)
        ensures
            stream_id == self.stream_id,
    {
        self.stream_id
    }

    /// Tests whether a flag is set.
    pub fn is_set(&self, flag: DataFlag) -> (set: bool)
        ensures
            set == flag_set(self.flags, flag.mask()),
    {
        has_flag(self.flags, flag.bitmask())
    }
}

impl Frame for DataFrame {
    open spec fn parsed(header: FrameHeader, payload: Seq<u8>) -> Option<DataFrameView> {
        if header.1 != DATA_FRAME_TYPE || header.0 != payload.len() || header.3 == 0 {
            None
        } else {
            match payload_body(payload, header.2) {
                Some((data, padding_len)) => Some(
                    DataFrameView { data, flags: header.2, stream_id: header.3, padding_len },
                ),
                None => None,
            }
        }
    }

    open spec fn octets(frame: DataFrameView) -> Seq<u8> {
        frame_octets(
            DATA_FRAME_TYPE,
            frame.flags,
            frame.stream_id,
            payload_octets(frame.data, frame.flags, frame.padding_len),
        )
    }

    open spec fn well_formed(frame: DataFrameView) -> bool {
        &&& 0 < frame.stream_id < STREAM_LIMIT
        &&& frame.padding_len is Some <==> flag_set(frame.flags, PADDED)
        &&& payload_octets(frame.data, frame.flags, frame.padding_len).len() < LENGTH_LIMIT
    }

    proof fn law_read_back(frame: DataFrameView) {
        let payload = payload_octets(frame.data, frame.flags, frame.padding_len);
        lemma_frame_octets(DATA_FRAME_TYPE, frame.flags, frame.stream_id, payload);
        law_payload_read_back(frame.data, frame.flags, frame.padding_len);
    }

    fn from_raw(raw_frame: RawFrame) -> Option<DataFrame> {
        let (len, frame_type, flags, stream_id) = raw_frame.header;
        if frame_type != DATA_FRAME_TYPE || len as usize != raw_frame.payload.len() || stream_id
            == 0 {
            return None;
        }
        match unpad_payload(&raw_frame.payload, flags) {
            Some((data, padding_len)) => Some(DataFrame { data, flags, stream_id, padding_len }),
            None => None,
        }
    }

    fn serialize(&self) -> Vec<u8> {
        let payload: Vec<u8> = pad_payload(&self.data, self.flags, self.padding_len);
        join_frame(DATA_FRAME_TYPE, self.flags, self.stream_id, &payload)
    }
}

/// The bits of the flags.
pub proof fn law_data_flags()
    ensures
        DataFlag::EndStream.mask() == 0x1,
        DataFlag::Padded.mask() == 0x8,
{
}

/// A DATA frame on the wire: its header, and its octets as they are, with
/// padding around them where the frame is padded.
pub proof fn law_data_layout(frame: DataFrame)
    ensures
        ({
            let octets = DataFrame::octets(frame@);
            let payload = octets.skip(9);
            let padding = match frame.padding_len {
                Some(n) => n as int,
                None => 0,
            };
            &&& octets.len() >= 9
            &&& octets[0] * 65536 + octets[1] * 256 + octets[2] == payload.len() as int % 16777216
            &&& octets[3] == 0
            &&& octets[4] == frame.flags
            &&& octets[5] * 16777216 + octets[6] * 65536 + octets[7] * 256 + octets[8]
                == frame.stream_id
            &&& frame.flags & 0x8 == 0 ==> payload == frame.data@
            &&& frame.flags & 0x8 == 0x8 ==> {
                &&& payload.len() == 1 + frame.data@.len() + padding
                &&& payload[0] == padding
                &&& payload.subrange(1, 1int + frame.data@.len()) == frame.data@
                &&& forall|i: int| 1 + frame.data@.len() <= i < payload.len() ==> payload[i] == 0
            }
        }),
{
    let payload = payload_octets(frame.data@, frame.flags, frame.padding_len);
    law_frame_layout(0, frame.flags, frame.stream_id, payload);
    law_payload_layout(frame.data@, frame.flags, frame.padding_len);
}

/// Which headers and payloads are a DATA frame: those of the right type and
/// length, on a stream, whose padding fits.
pub proof fn law_data_validity(header: FrameHeader, payload: Seq<u8>)
    ensures
        DataFrame::parsed(header, payload) is Some <==> {
            &&& header.1 == 0
            &&& header.0 == payload.len()
            &&& header.3 != 0
            &&& header.2 & 0x8 == 0x8 ==> payload.len() > 0 && payload[0] < payload.len()
        },
{
}

/// What a received DATA frame holds: the flags and the stream of its header,
/// and the octets of its payload without padding.
pub proof fn law_data_meaning(header: FrameHeader, payload: Seq<u8>, frame: DataFrame)
    requires
        DataFrame::parsed(header, payload) == Some(frame@),
    ensures
        frame.flags == header.2,
        frame.stream_id == header.3,
        header.2 & 0x8 == 0 ==> frame.data@ == payload && frame.padding_len is None,
        header.2 & 0x8 == 0x8 ==> frame.padding_len == Some(payload[0]) && frame.data@
            == payload.subrange(1, payload.len() - payload[0]),
{
}

/// A DATA frame on a stream, padded exactly where it says so and short enough
/// for its length to be announced, is read back as it was.
pub proof fn law_data_read_back(frame: DataFrame)
    requires
        0 < frame.stream_id < 0x8000_0000,
        frame.flags & 0x8 == 0 <==> frame.padding_len is None,
        frame.data@.len() + 256 < 0x100_0000,
    ensures
        ({
            let octets = DataFrame::octets(frame@);
            DataFrame::parsed(header_parts(octets.take(9)), octets.skip(9)) == Some(frame@)
        }),
{
    let flags = frame.flags;
    assert(flags & 0x8 == 0 || flags & 0x8 == 0x8) by (bit_vector);
    law_payload_layout(frame.data@, frame.flags, frame.padding_len);
    DataFrame::law_read_back(frame@);
}

} // verus!
