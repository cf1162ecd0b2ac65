//! The compression of header lists, which the `hpack` crate does.
use vstd::prelude::*;

use super::{header_list, Header, HeaderView};

verus! {

/// `hpack::Encoder`, which keeps a table of headers that it has sent.
#[verifier::external_type_specification]
#[verifier::external_body]
pub struct ExEncoder<'a>(hpack::Encoder<'a>);

/// `hpack::Decoder`, which keeps a table of headers that it has received.
#[verifier::external_type_specification]
#[verifier::external_body]
pub struct ExDecoder<'a>(hpack::Decoder<'a>);

/// `hpack::decoder::DecoderError`, carried through without a look inside.
#[verifier::external_type_specification]
#[verifier::external_body]
pub struct ExDecoderError(hpack::decoder::DecoderError);

/// Why a header block cannot be decoded.
#[derive(Debug)]
pub enum CompressionError {
    /// The decoder found a mistake.
    Decoder(hpack::decoder::DecoderError),
    /// A new size for the table, inside the block, is cut off or too long.
    SizeUpdate,
}

/// The most octets that an integer inside a header block may take.
pub const INTEGER_OCTETS: usize = 5;

/// The size that the table of a coder has room for, unless it is changed.
pub const DEFAULT_TABLE_SIZE: u32 = 4096;

/// The octets of a string that an integer inside a header block can count.
pub const STRING_LIMIT: u32 = 0x1000_0000;

/// The headers in the table of an encoder, the latest first.
pub uninterp spec fn encoder_table(encoder: hpack::Encoder<'_>) -> Seq<(Seq<u8>, Seq<u8>)>;

/// The headers in the table of a decoder, the latest first.
pub uninterp spec fn decoder_table(decoder: hpack::Decoder<'_>) -> Seq<(Seq<u8>, Seq<u8>)>;

/// The size that the table of a decoder has room for.
pub uninterp spec fn decoder_limit(decoder: hpack::Decoder<'_>) -> nat;

/// What `hpack::Encoder::encode` makes of a list of headers, given the table
/// of the encoder: the header block, and the table afterwards.
pub uninterp spec fn encoded(
    table: Seq<(Seq<u8>, Seq<u8>)>,
    headers: Seq<(Seq<u8>, Seq<u8>)>,
) -> (Seq<u8>, Seq<(Seq<u8>, Seq<u8>)>);

/// What `hpack::Decoder::decode` makes of a header block, given the table of
/// the decoder and the size that it has room for: the list of headers or an
/// error, and the table and its size afterwards.
pub uninterp spec fn decoded(
    table: Seq<(Seq<u8>, Seq<u8>)>,
    limit: nat,
    block: Seq<u8>,
) -> (Result<Seq<(Seq<u8>, Seq<u8>)>, hpack::decoder::DecoderError>, Seq<(Seq<u8>, Seq<u8>)>, nat);

/// The value of what came out of a decoder.
pub open spec fn decoded_view(
    result: Result<Vec<Header>, hpack::decoder::DecoderError>,
) -> Result<Seq<HeaderView>, hpack::decoder::DecoderError> {
    match result {
        Ok(headers) => Ok(header_list(headers@)),
        Err(error) => Err(error),
    }
}

/// Whether every name and every value is short enough for its length to be
/// read back.
pub open spec fn short_strings(headers: Seq<HeaderView>) -> bool {
    forall|i: int|
        #![trigger headers[i]]
        0 <= i < headers.len() ==> headers[i].0.len() < STRING_LIMIT && headers[i].1.len()
            < STRING_LIMIT
}

/// The rest of an integer behind its first octet: seven bits in each octet,
/// the least significant first, as long as the most significant bit is set.
/// Gives their number, and the index behind the last octet.
pub open spec fn integer_rest(block: Seq<u8>, at: nat) -> Option<(nat, nat)>
    decreases INTEGER_OCTETS - at,
{
    if at >= INTEGER_OCTETS || at >= block.len() {
        None
    } else {
        let octet = block[at as int] as nat;
        if octet < 128 {
            Some((octet, at + 1))
        } else {
            match integer_rest(block, at + 1) {
                Some((rest, end)) => Some(((octet - 128) as nat + 128 * rest, end)),
                None => None,
            }
        }
    }
}

/// The integer that a block starts with, and how many octets it takes. The
/// first octet has room for the numbers below `mask`.
pub open spec fn integer_at(block: Seq<u8>, mask: u8) -> Option<(nat, nat)> {
    if block.len() == 0 {
        None
    } else if block[0] as nat % (mask as nat + 1) < mask {
        Some((block[0] as nat % (mask as nat + 1), 1))
    } else {
        match integer_rest(block, 1) {
            Some((rest, end)) => Some((mask as nat + rest, end)),
            None => None,
        }
    }
}

/// How many octets the string takes that a block starts with: its length,
/// then as many octets.
pub open spec fn string_at(block: Seq<u8>) -> Option<nat> {
    match integer_at(block, 127) {
        Some((length, used)) => if used + length <= block.len() {
            Some(used + length)
        } else {
            None
        },
        None => None,
    }
}

/// How many octets a literal header takes that a block starts with: the index
/// of its name or zero and the name, then the value.
pub open spec fn literal_at(block: Seq<u8>, mask: u8) -> Option<nat> {
    match integer_at(block, mask) {
        Some((index, used)) => {
            let name = if index == 0 {
                string_at(block.skip(used as int))
            } else {
                Some(0nat)
            };
            match name {
                Some(name_used) => match string_at(block.skip((used + name_used) as int)) {
                    Some(value_used) => Some(used + name_used + value_used),
                    None => None,
                },
                None => None,
            }
        },
        None => None,
    }
}

/// How many octets the field takes that a block starts with: an indexed
/// header, a literal one, or a new size for the table.
pub open spec fn field_at(block: Seq<u8>) -> Option<nat> {
    if block[0] >= 128 {
        match integer_at(block, 127) {
            Some((_, used)) => Some(used),
            None => None,
        }
    } else if block[0] >= 64 {
        literal_at(block, 63)
    } else if block[0] >= 32 {
        match integer_at(block, 31) {
            Some((_, used)) => Some(used),
            None => None,
        }
    } else {
        literal_at(block, 15)
    }
}

/// How many octets of a block stand before the first new size for the table
/// that is cut off or too long. Any other field that is cut off makes the
/// decoder stop there, so what stands behind it is nobody's concern.
pub open spec fn sound_len(block: Seq<u8>) -> nat
    decreases block.len(),
{
    if block.len() == 0 {
        0
    } else {
        match field_at(block) {
            Some(used) => if 0 < used <= block.len() {
                used + sound_len(block.skip(used as int))
            } else {
                block.len()
            },
            None => if 32 <= block[0] < 64 {
                0
            } else {
                block.len()
            },
        }
    }
}

/// The part of a block that a decoder can be given.
pub open spec fn sound_part(block: Seq<u8>) -> Seq<u8> {
    block.take(sound_len(block) as int)
}

/// Whether the whole of a block can be given to a decoder.
pub open spec fn is_sound(block: Seq<u8>) -> bool {
    sound_len(block) == block.len()
}

/// The sound part of a block is part of it, and is sound as a whole.
pub proof fn law_sound_part(block: Seq<u8>)
    ensures
        sound_len(block) <= block.len(),
        is_sound(sound_part(block)),
    decreases block.len(),
{
    if block.len() != 0 {
        match field_at(block) {
            Some(used) if 0 < used <= block.len() => {
                let rest = block.skip(used as int);
                let part = sound_part(block);
                law_sound_part(rest);
                lemma_field_at(block, sound_len(block));
                assert(part.skip(used as int) =~= sound_part(rest));
            },
            _ => {
                if sound_len(block) != 0 {
                    assert(sound_part(block) =~= block);
                }
            },
        }
    }
}

/// The rest of an integer does not depend on what is behind it.
proof fn lemma_integer_rest(block: Seq<u8>, at: nat, length: nat)
    requires
        length <= block.len(),
        integer_rest(block, at) matches Some((_, end)) && end <= length,
    ensures
        integer_rest(block.take(length as int), at) == integer_rest(block, at),
        integer_rest(block, at) matches Some((_, end)) && at < end,
    decreases INTEGER_OCTETS - at,
{
    if block[at as int] as nat >= 128 {
        lemma_integer_rest(block, at + 1, length);
    } else {
        assert(block.take(length as int)[at as int] == block[at as int]);
    }
}

/// An integer does not depend on what is behind it.
proof fn lemma_integer_at(block: Seq<u8>, mask: u8, length: nat)
    requires
        length <= block.len(),
        integer_at(block, mask) matches Some((_, used)) && used <= length,
    ensures
        integer_at(block.take(length as int), mask) == integer_at(block, mask),
        integer_at(block, mask) matches Some((_, used)) && 0 < used,
{
    if block[0] as nat % (mask as nat + 1) >= mask {
        lemma_integer_rest(block, 1, length);
    }
}

/// A string does not depend on what is behind it.
proof fn lemma_string_at(block: Seq<u8>, length: nat)
    requires
        length <= block.len(),
        string_at(block) matches Some(used) && used <= length,
    ensures
        string_at(block.take(length as int)) == string_at(block),
{
    lemma_integer_at(block, 127, length);
}

/// A literal header does not depend on what is behind it.
proof fn lemma_literal_at(block: Seq<u8>, mask: u8, length: nat)
    requires
        length <= block.len(),
        literal_at(block, mask) matches Some(used) && used <= length,
    ensures
        literal_at(block.take(length as int), mask) == literal_at(block, mask),
{
    let part = block.take(length as int);
    lemma_integer_at(block, mask, length);
    let (index, used) = integer_at(block, mask)->0;
    let behind = block.skip(used as int);
    assert(part.skip(used as int) =~= behind.take(length - used));
    let name_used = if index == 0 {
        string_at(behind)->0
    } else {
        0
    };
    if index == 0 {
        lemma_string_at(behind, (length - used) as nat);
    }
    let at = used + name_used;
    assert(part.skip(at as int) =~= block.skip(at as int).take(length - at));
    lemma_string_at(block.skip(at as int), (length - at) as nat);
}

/// A field does not depend on what is behind it.
proof fn lemma_field_at(block: Seq<u8>, length: nat)
    requires
        0 < length <= block.len(),
        field_at(block) matches Some(used) && used <= length,
    ensures
        field_at(block.take(length as int)) == field_at(block),
{
    if block[0] >= 128 {
        lemma_integer_at(block, 127, length);
    } else if block[0] >= 64 {
        lemma_literal_at(block, 63, length);
    } else if block[0] >= 32 {
        lemma_integer_at(block, 31, length);
    } else {
        lemma_literal_at(block, 15, length);
    }
}

/// Encodes a list of headers with `hpack::Encoder::encode`.
///
/// The header block and the table afterwards depend on the list and on the
/// table before. The encoder changes the size of the table nowhere, and a
/// decoder whose table is the same, with room for as much, decodes the block
/// into the same list and ends with the same table. That is claimed of lists
/// whose strings are short enough for their lengths to be decoded.
#[verifier::external_body]
pub(crate) fn encode(encoder: &mut hpack::Encoder<'_>, headers: &Vec<Header>) -> (block: Vec<u8>)
    ensures
        (block@, encoder_table(*final(encoder))) == encoded(
            encoder_table(*old(encoder)),
            header_list(headers@),
        ),
        is_sound(block@),
        short_strings(header_list(headers@)) ==> decoded(
            encoder_table(*old(encoder)),
            DEFAULT_TABLE_SIZE as nat,
            block@,
        ) == (
            Ok::<Seq<HeaderView>, hpack::decoder::DecoderError>(header_list(headers@)),
            encoder_table(*final(encoder)),
            DEFAULT_TABLE_SIZE as nat,
        ),
{
    encoder.encode(headers)
}

/// Decodes a header block with `hpack::Decoder::decode`.
///
/// The outcome, the table afterwards and the size that it has room for depend
/// on the block, on the table before and on its size. The decoder panics on a
/// new size that is cut off or too long, so such blocks are left out.
#[verifier::external_body]
fn decode(decoder: &mut hpack::Decoder<'_>, block: &[u8]) -> (result: Result<
    Vec<Header>,
    hpack::decoder::DecoderError,
>)
    requires
        is_sound(block@),
    ensures
        (
            decoded_view(result),
            decoder_table(*final(decoder)),
            decoder_limit(*final(decoder)),
        ) == decoded(decoder_table(*old(decoder)), decoder_limit(*old(decoder)), block@),
{
    decoder.decode(block)
}

/// Reads the rest of an integer that starts at `start`, from the octet with
/// the number `at` on.
fn read_integer_rest(block: &[u8], start: usize, at: usize) -> (rest: Option<(usize, usize)>)
    requires
        start <= block@.len(),
        0 < at <= INTEGER_OCTETS,
    ensures
        match rest {
            Some((number, end)) => integer_rest(block@.skip(start as int), at as nat) == Some(
                (number as nat, end as nat),
            ),
            None => integer_rest(block@.skip(start as int), at as nat) is None,
        },
        rest matches Some((number, end)) ==> at < end <= block@.len() - start && number < (if at
            == 1 {
            0x1000_0000
        } else if at == 2 {
            0x20_0000
        } else if at == 3 {
            0x4000
        } else {
            0x80int
        }),
    decreases INTEGER_OCTETS - at,
{
    if at >= INTEGER_OCTETS || at >= block.len() - start {
        return None;
    }
    let octet: usize = block[start + at] as usize;
    if octet < 128 {
        Some((octet, at + 1))
    } else {
        match read_integer_rest(block, start, at + 1) {
            Some((rest, end)) => Some((octet - 128 + 128 * rest, end)),
            None => None,
        }
    }
}

/// Reads the integer that starts at `start`, and how many octets it takes.
fn read_integer(block: &[u8], start: usize, mask: u8) -> (integer: Option<(usize, usize)>)
    requires
        start <= block@.len(),
        mask < 255,
    ensures
        match integer {
            Some((number, used)) => integer_at(block@.skip(start as int), mask) == Some(
                (number as nat, used as nat),
            ),
            None => integer_at(block@.skip(start as int), mask) is None,
        },
        integer matches Some((number, used)) ==> 0 < used <= block@.len() - start && number
            < 0x1000_0100,
{
    if start >= block.len() {
        return None;
    }
    let first: usize = block[start] as usize % (mask as usize + 1);
    if first < mask as usize {
        Some((first, 1))
    } else {
        match read_integer_rest(block, start, 1) {
            Some((rest, end)) => Some((mask as usize + rest, end)),
            None => None,
        }
    }
}

/// Reads how many octets the string takes that starts at `start`.
fn read_string(block: &[u8], start: usize) -> (used: Option<usize>)
    requires
        start <= block@.len(),
    ensures
        match used {
            Some(n) => string_at(block@.skip(start as int)) == Some(n as nat),
            None => string_at(block@.skip(start as int)) is None,
        },
        used matches Some(n) ==> n <= block@.len() - start,
{
    match read_integer(block, start, 127) {
        Some((length, used)) => if length <= block.len() - start - used {
            Some(used + length)
        } else {
            None
        },
        None => None,
    }
}

/// Reads how many octets the literal header takes that starts at `start`.
fn read_literal(block: &[u8], start: usize, mask: u8) -> (used: Option<usize>)
    requires
        start <= block@.len(),
        mask < 255,
    ensures
        match used {
            Some(n) => literal_at(block@.skip(start as int), mask) == Some(n as nat),
            None => literal_at(block@.skip(start as int), mask) is None,
        },
        used matches Some(n) ==> 0 < n <= block@.len() - start,
{
    let length: usize = block.len();
    let (index, used) = match read_integer(block, start, mask) {
        Some(integer) => integer,
        None => return None,
    };
    assert(start + used <= length);
    assert(block@.skip(start as int).skip(used as int) =~= block@.skip(start + used));
    let name_used: usize = if index == 0 {
        match read_string(block, start + used) {
            Some(n) => n,
            None => return None,
        }
    } else {
        0
    };
    assert(block@.skip(start as int).skip(used + name_used) =~= block@.skip(
        start + used + name_used,
    ));
    match read_string(block, start + used + name_used) {
        Some(value_used) => Some(used + name_used + value_used),
        None => None,
    }
}

/// Returns how many octets of a block can be given to a decoder.
pub fn count_sound(block: &[u8]) -> (length: usize)
    ensures
        length == sound_len(block@),
        length <= block@.len(),
{
    let mut start: usize = 0;
    assert(block@.skip(0) =~= block@);
    while start < block.len()
        invariant
            start <= block@.len(),
            sound_len(block@) == start + sound_len(block@.skip(start as int)),
        decreases block.len() - start,
    {
        let first: u8 = block[start];
        let field: Option<usize> = if first >= 128 {
            match read_integer(block, start, 127) {
                Some((_, used)) => Some(used),
                None => None,
            }
        } else if first >= 64 {
            read_literal(block, start, 63)
        } else if first >= 32 {
            match read_integer(block, start, 31) {
                Some((_, used)) => Some(used),
                None => None,
            }
        } else {
            read_literal(block, start, 15)
        };
        match field {
            Some(used) => {
                assert(block@.skip(start as int).skip(used as int) =~= block@.skip(start + used));
                start = start + used;
            },
            None => {
                return if 32 <= first && first < 64 {
                    start
                } else {
                    block.len()
                };
            },
        }
    }
    start
}

/// Tells what came of decoding a header block, given what came of decoding its
/// sound part, and whether that is the whole block.
pub fn judge_headers(
    decoded: Result<Vec<Header>, hpack::decoder::DecoderError>,
    whole: bool,
) -> (headers: Result<Vec<Header>, CompressionError>)
    ensures
        match decoded {
            Ok(list) => headers == (if whole {
                Ok::<Vec<Header>, CompressionError>(list)
            } else {
                Err(CompressionError::SizeUpdate)
            }),
            Err(error) => headers == Err::<Vec<Header>, CompressionError>(
                CompressionError::Decoder(error),
            ),
        },
{
    match decoded {
        Ok(headers) => if whole {
            Ok(headers)
        } else {
            Err(CompressionError::SizeUpdate)
        },
        Err(error) => Err(CompressionError::Decoder(error)),
    }
}

/// What comes of decoding a header block: the headers or an error, and the
/// table of the decoder and its size afterwards. Where a new size for the
/// table is cut off or too long, the decoder gets what stands before it, and
/// unless there is a mistake in that, the new size is one.
pub open spec fn block_decoded(
    table: Seq<HeaderView>,
    limit: nat,
    block: Seq<u8>,
) -> (Result<Seq<HeaderView>, CompressionError>, Seq<HeaderView>, nat) {
    let (result, table_after, limit_after) = decoded(table, limit, sound_part(block));
    let headers = match result {
        Ok(list) => if is_sound(block) {
            Ok(list)
        } else {
            Err(CompressionError::SizeUpdate)
        },
        Err(error) => Err(CompressionError::Decoder(error)),
    };
    (headers, table_after, limit_after)
}

/// Decodes a header block.
pub fn decode_headers(decoder: &mut hpack::Decoder<'_>, block: &[u8]) -> (headers: Result<
    Vec<Header>,
    CompressionError,
>)
    ensures
        ({
            let (result, table, limit) = block_decoded(
                decoder_table(*old(decoder)),
                decoder_limit(*old(decoder)),
                block@,
            );
            &&& decoder_table(*final(decoder)) == table
            &&& decoder_limit(*final(decoder)) == limit
            &&& match result {
                Ok(list) => headers matches Ok(h) && header_list(h@) == list,
                Err(error) => headers == Err::<Vec<Header>, CompressionError>(error),
            }
        }),
{
    let length: usize = count_sound(block);
    let part: &[u8] = vstd::slice::slice_subrange(block, 0, length);
    proof {
        law_sound_part(block@);
        assert(part@ =~= sound_part(block@));
    }
    let decoded = decode(decoder, part);
    judge_headers(decoded, length == block.len())
}

/// A sound block is decoded as a whole.
pub proof fn law_sound_block(table: Seq<HeaderView>, limit: nat, block: Seq<u8>)
    requires
        is_sound(block),
    ensures
        ({
            let (result, table_after, limit_after) = decoded(table, limit, block);
            block_decoded(table, limit, block) == (
                match result {
                    Ok(headers) => Ok::<Seq<HeaderView>, CompressionError>(headers),
                    Err(error) => Err(CompressionError::Decoder(error)),
                },
                table_after,
                limit_after,
            )
        }),
{
    assert(sound_part(block) =~= block);
}

/// What came of decoding a block that is not sound is always an error: the
/// decoder's, if it found a mistake in the sound part, and otherwise the size
/// that is cut off or too long. The decoder is left as the sound part leaves
/// it.
pub proof fn law_unsound_block_is_an_error(table: Seq<HeaderView>, limit: nat, block: Seq<u8>)
    requires
        !is_sound(block),
    ensures
        ({
            let (result, table_after, limit_after) = decoded(
                table,
                limit,
                block.take(sound_len(block) as int),
            );
            let (headers, table_left, limit_left) = block_decoded(table, limit, block);
            &&& table_left == table_after && limit_left == limit_after
            &&& headers == match result {
                Ok(_) => Err::<Seq<HeaderView>, CompressionError>(CompressionError::SizeUpdate),
                Err(error) => Err(CompressionError::Decoder(error)),
            }
        }),
{
}

/// The rest of an integer is missing only where every octet that there is, up
/// to the limit, says that another one follows.
proof fn lemma_no_integer_rest(block: Seq<u8>, at: nat)
    requires
        at <= INTEGER_OCTETS,
    ensures
        integer_rest(block, at) is None <==> forall|i: int|
            at <= i < block.len() && i < INTEGER_OCTETS ==> #[trigger] block[i] >= 128,
    decreases INTEGER_OCTETS - at,
{
    if at < INTEGER_OCTETS && at < block.len() {
        lemma_no_integer_rest(block, at + 1);
        assert forall|i: int|
            integer_rest(block, at) is None && at <= i < block.len() && i
                < INTEGER_OCTETS implies #[trigger] block[i] >= 128 by {
            assert(block[at as int] >= 128);
        }
        if block[at as int] >= 128 {
            assert forall|i: int|
                integer_rest(block, at + 1) is None && at <= i < block.len() && i
                    < INTEGER_OCTETS implies #[trigger] block[i] >= 128 by {}
        }
    }
}

/// Whether a block starts with a new size for the table of which every octet,
/// up to the fifth, says that another one follows.
spec fn bad_size_update(block: Seq<u8>) -> bool {
    &&& block.len() > 0
    &&& block[0] == 0x3f
    &&& forall|i: int| 1 <= i < block.len() && i < 5 ==> #[trigger] block[i] >= 128
}

/// Such a size is the one kind of field that is cut off or too long and can
/// not be given to a decoder.
proof fn lemma_bad_size_update(block: Seq<u8>)
    requires
        block.len() > 0,
    ensures
        bad_size_update(block) <==> 32 <= block[0] < 64 && field_at(block) is None,
{
    lemma_no_integer_rest(block, 1);
    if block[0] == 0x3f {
        assert(integer_at(block, 31) is None <==> integer_rest(block, 1) is None);
        if bad_size_update(block) {
            assert forall|i: int|
                1 <= i < block.len() && i < INTEGER_OCTETS implies #[trigger] block[i] >= 128 by {}
        }
        if integer_rest(block, 1) is None {
            assert forall|i: int| 1 <= i < block.len() && i < 5 implies #[trigger] block[i]
                >= 128 by {}
        }
    } else if 32 <= block[0] < 64 {
        assert(block[0] as nat % 32 < 31);
    }
}

/// Where the sound part of a block ends, there is the end of the block or such
/// a size.
proof fn lemma_sound_end(block: Seq<u8>)
    ensures
        sound_len(block) <= block.len(),
        !is_sound(block) ==> bad_size_update(block.skip(sound_len(block) as int)),
    decreases block.len(),
{
    if block.len() != 0 {
        let field = field_at(block);
        lemma_bad_size_update(block);
        if field is Some && 0 < field->0 <= block.len() {
            let used = field->0;
            let behind = block.skip(used as int);
            lemma_sound_end(behind);
            assert(sound_len(block) == used + sound_len(behind));
            assert(behind.skip(sound_len(behind) as int) =~= block.skip(sound_len(block) as int));
        } else {
            assert(block.skip(0) =~= block);
        }
    }
}

/// Where the sound part of a block ends, there is the end of the block, or a
/// new size for the table of which every octet, up to the fifth, says that
/// another one follows.
pub proof fn law_unsound_block(block: Seq<u8>)
    ensures
        !is_sound(block) ==> {
            let rest = block.skip(sound_len(block) as int);
            &&& sound_len(block) < block.len()
            &&& rest[0] == 0x3f
            &&& forall|i: int| 1 <= i < rest.len() && i < 5 ==> #[trigger] rest[i] >= 128
        },
{
    lemma_sound_end(block);
}

/// A block that starts with such a size has no sound part.
pub proof fn law_bad_size_update(block: Seq<u8>)
    requires
        block.len() > 0,
        block[0] == 0x3f,
        forall|i: int| 1 <= i < block.len() && i < 5 ==> #[trigger] block[i] >= 128,
    ensures
        sound_len(block) == 0,
{
    assert(bad_size_update(block));
    lemma_bad_size_update(block);
}

/// The octets of a number behind the first octet of an integer.
pub open spec fn rest_octets(n: nat) -> Seq<u8>
    decreases n,
{
    if n < 128 {
        seq![n as u8]
    } else {
        seq![(128 + n % 128) as u8] + rest_octets(n / 128)
    }
}

/// The octets of an integer. The first octet has room for the numbers below
/// `mask`, beside the bits in `high`.
pub open spec fn integer_octets(high: u8, mask: u8, n: nat) -> Seq<u8> {
    if n < mask {
        seq![(high + n) as u8]
    } else {
        seq![(high + mask) as u8] + rest_octets((n - mask) as nat)
    }
}

/// The octets of a string: its length, marked where the string is compressed,
/// and the string.
pub open spec fn string_octets(compressed: bool, string: Seq<u8>) -> Seq<u8> {
    integer_octets(
        if compressed {
            128
        } else {
            0
        },
        127,
        string.len(),
    ) + string
}

/// The rest of an integer is read back, if it is not too long.
proof fn lemma_rest_octets(front: Seq<u8>, n: nat, behind: Seq<u8>, bound: nat)
    requires
        0 < front.len() < INTEGER_OCTETS,
        n < bound,
        bound == (if front.len() == 1 {
            0x1000_0000
        } else if front.len() == 2 {
            0x20_0000
        } else if front.len() == 3 {
            0x4000
        } else {
            0x80nat
        }),
    ensures
        integer_rest(front + rest_octets(n) + behind, front.len()) == Some(
            (n, front.len() + rest_octets(n).len()),
        ),
    decreases n,
{
    let block = front + rest_octets(n) + behind;
    if n >= 128 {
        let octet = (128 + n % 128) as u8;
        let longer = front.push(octet);
        lemma_rest_octets(
            longer,
            n / 128,
            behind,
            if longer.len() == 2 {
                0x20_0000
            } else if longer.len() == 3 {
                0x4000
            } else {
                0x80
            },
        );
        assert(block =~= longer + rest_octets(n / 128) + behind);
        assert(block[front.len() as int] == octet);
    } else {
        assert(block[front.len() as int] == n as u8);
    }
}

/// An integer is read back, whatever is behind it.
pub proof fn law_integer_read_back(high: u8, mask: u8, n: nat, behind: Seq<u8>)
    requires
        (mask == 15 && (high == 0 || high == 0x10)) || (mask == 31 && high == 0x20) || (mask == 63
            && high == 0x40) || (mask == 127 && (high == 0 || high == 0x80)),
        n < mask + 0x1000_0000,
    ensures
        integer_at(integer_octets(high, mask, n) + behind, mask) == Some(
            (n, integer_octets(high, mask, n).len()),
        ),
{
    let block = integer_octets(high, mask, n) + behind;
    let low: nat = if n < mask {
        n
    } else {
        mask as nat
    };
    assert(block[0] == high + low);
    assert(block[0] as nat % (mask as nat + 1) == low) by {
        if mask == 15 {
            assert((high + low) % 16 == low);
        } else if mask == 31 {
            assert((high + low) % 32 == low);
        } else if mask == 63 {
            assert((high + low) % 64 == low);
        } else {
            assert((high + low) % 128 == low);
        }
    }
    if n >= mask {
        let front = seq![(high + mask) as u8];
        lemma_rest_octets(front, (n - mask) as nat, behind, 0x1000_0000);
        assert(block =~= front + rest_octets((n - mask) as nat) + behind);
    }
}

/// A string is read back, whatever is behind it.
pub proof fn law_string_read_back(compressed: bool, string: Seq<u8>, behind: Seq<u8>)
    requires
        string.len() < 0x1000_0000,
    ensures
        string_at(string_octets(compressed, string) + behind) == Some(
            string_octets(compressed, string).len(),
        ),
{
    let high: u8 = if compressed {
        128
    } else {
        0
    };
    law_integer_read_back(high, 127, string.len(), string + behind);
    assert(string_octets(compressed, string) + behind =~= integer_octets(high, 127, string.len())
        + (string + behind));
}

/// A header that is given by its index is one field of a block, and so is a
/// new size for the table: what is sound of the block is it and what is sound
/// behind it.
pub proof fn law_number_fields(n: nat, behind: Seq<u8>)
    requires
        n < 0x1000_0000,
    ensures
        sound_len(integer_octets(0x80, 127, n) + behind) == integer_octets(0x80, 127, n).len()
            + sound_len(behind),
        sound_len(integer_octets(0x20, 31, n) + behind) == integer_octets(0x20, 31, n).len()
            + sound_len(behind),
{
    law_integer_read_back(0x80, 127, n, behind);
    law_integer_read_back(0x20, 31, n, behind);
    lemma_sound_step(integer_octets(0x80, 127, n), behind);
    lemma_sound_step(integer_octets(0x20, 31, n), behind);
}

/// A literal header is one field of a block, whether or not it goes into the
/// table, and whether its name is given by an index or as a string: what is
/// sound of the block is it and what is sound behind it.
pub proof fn law_literal_fields(
    high: u8,
    mask: u8,
    index: nat,
    name: Seq<u8>,
    value: Seq<u8>,
    compressed_name: bool,
    compressed_value: bool,
    behind: Seq<u8>,
)
    requires
        (high == 0x40 && mask == 63) || (high == 0x10 && mask == 15) || (high == 0 && mask == 15),
        index < 0x1000_0000,
        name.len() < 0x1000_0000,
        value.len() < 0x1000_0000,
    ensures
        ({
            let field = integer_octets(high, mask, index) + (if index == 0 {
                string_octets(compressed_name, name)
            } else {
                Seq::empty()
            }) + string_octets(compressed_value, value);
            sound_len(field + behind) == field.len() + sound_len(behind)
        }),
{
    let field = integer_octets(high, mask, index) + (if index == 0 {
        string_octets(compressed_name, name)
    } else {
        Seq::empty()
    }) + string_octets(compressed_value, value);
    let block = field + behind;
    lemma_literal_octets(
        high,
        mask,
        index,
        name,
        value,
        compressed_name,
        compressed_value,
        behind,
    );
    let first = integer_octets(high, mask, index);
    assert(high <= first[0] <= high + mask);
    assert(field[0] == first[0]);
    lemma_literal_field(block, high, mask, field.len());
    lemma_sound_step(field, behind);
}

/// A literal header is a field.
proof fn lemma_literal_field(block: Seq<u8>, high: u8, mask: u8, used: nat)
    requires
        (high == 0x40 && mask == 63) || (high == 0x10 && mask == 15) || (high == 0 && mask == 15),
        high <= block[0] <= high + mask,
        literal_at(block, mask) == Some(used),
    ensures
        field_at(block) == Some(used),
{
}

/// A field at the front of a block is sound, and the rest of the block is as
/// sound as it is without the field.
proof fn lemma_sound_step(field: Seq<u8>, behind: Seq<u8>)
    requires
        field.len() > 0,
        field_at(field + behind) == Some(field.len()),
    ensures
        sound_len(field + behind) == field.len() + sound_len(behind),
{
    assert((field + behind).skip(field.len() as int) =~= behind);
}

/// A literal header is read back.
proof fn lemma_literal_octets(
    high: u8,
    mask: u8,
    index: nat,
    name: Seq<u8>,
    value: Seq<u8>,
    compressed_name: bool,
    compressed_value: bool,
    behind: Seq<u8>,
)
    requires
        (high == 0x40 && mask == 63) || (high == 0x10 && mask == 15) || (high == 0 && mask == 15),
        index < 0x1000_0000,
        name.len() < 0x1000_0000,
        value.len() < 0x1000_0000,
    ensures
        ({
            let field = integer_octets(high, mask, index) + (if index == 0 {
                string_octets(compressed_name, name)
            } else {
                Seq::empty()
            }) + string_octets(compressed_value, value);
            literal_at(field + behind, mask) == Some(field.len())
        }),
{
    let first = integer_octets(high, mask, index);
    let second = if index == 0 {
        string_octets(compressed_name, name)
    } else {
        Seq::empty()
    };
    let third = string_octets(compressed_value, value);
    lemma_join(first, second, third, behind);
    law_integer_read_back(high, mask, index, second + third + behind);
    if index == 0 {
        law_string_read_back(compressed_name, name, third + behind);
    }
    law_string_read_back(compressed_value, value, behind);
    lemma_literal_parts(
        first + second + third + behind,
        mask,
        index,
        first.len(),
        second.len(),
        third.len(),
    );
}

/// What is behind each of several sequences in a row.
proof fn lemma_join(first: Seq<u8>, second: Seq<u8>, third: Seq<u8>, behind: Seq<u8>)
    ensures
        ({
            let all = first + second + third + behind;
            &&& all == first + (second + third + behind)
            &&& all.skip(first.len() as int) == second + (third + behind)
            &&& all.skip((first.len() + second.len()) as int) == third + behind
        }),
{
    let all = first + second + third + behind;
    assert(all =~= first + (second + third + behind));
    assert(all.skip(first.len() as int) =~= second + (third + behind));
    assert(all.skip((first.len() + second.len()) as int) =~= third + behind);
}

/// A literal header is as long as its parts.
proof fn lemma_literal_parts(
    block: Seq<u8>,
    mask: u8,
    index: nat,
    used: nat,
    name_used: nat,
    value_used: nat,
)
    requires
        integer_at(block, mask) == Some((index, used)),
        index == 0 ==> string_at(block.skip(used as int)) == Some(name_used),
        index != 0 ==> name_used == 0,
        string_at(block.skip((used + name_used) as int)) == Some(value_used),
    ensures
        literal_at(block, mask) == Some(used + name_used + value_used),
{
}

/// The rest of an integer that is complete stays what it is when more octets
/// follow.
proof fn lemma_integer_rest_longer(block: Seq<u8>, at: nat, more: Seq<u8>)
    requires
        integer_rest(block, at) is Some,
    ensures
        integer_rest(block + more, at) == integer_rest(block, at),
        integer_rest(block, at) matches Some((_, end)) && end <= block.len(),
    decreases INTEGER_OCTETS - at,
{
    assert((block + more)[at as int] == block[at as int]);
    if block[at as int] >= 128 {
        lemma_integer_rest_longer(block, at + 1, more);
    }
}

/// An integer that is complete stays what it is when more octets follow.
proof fn lemma_integer_longer(block: Seq<u8>, mask: u8, more: Seq<u8>)
    requires
        integer_at(block, mask) is Some,
    ensures
        integer_at(block + more, mask) == integer_at(block, mask),
        integer_at(block, mask) matches Some((_, used)) && used <= block.len(),
{
    if block[0] as nat % (mask as nat + 1) >= mask {
        lemma_integer_rest_longer(block, 1, more);
    }
}

/// A string that is complete stays what it is when more octets follow.
proof fn lemma_string_longer(block: Seq<u8>, more: Seq<u8>)
    requires
        string_at(block) is Some,
    ensures
        string_at(block + more) == string_at(block),
        string_at(block) matches Some(used) && used <= block.len(),
{
    lemma_integer_longer(block, 127, more);
}

/// A literal header that is complete stays what it is when more octets follow.
proof fn lemma_literal_longer(block: Seq<u8>, mask: u8, more: Seq<u8>)
    requires
        literal_at(block, mask) is Some,
    ensures
        literal_at(block + more, mask) == literal_at(block, mask),
        literal_at(block, mask) matches Some(used) && used <= block.len(),
{
    lemma_integer_longer(block, mask, more);
    let (index, used) = integer_at(block, mask)->0;
    let behind = block.skip(used as int);
    assert((block + more).skip(used as int) =~= behind + more);
    let name_used: nat = if index == 0 {
        string_at(behind)->0
    } else {
        0
    };
    if index == 0 {
        lemma_string_longer(behind, more);
    }
    let at = (used + name_used) as int;
    assert((block + more).skip(at) =~= block.skip(at) + more);
    lemma_string_longer(block.skip(at), more);
    lemma_literal_parts(block + more, mask, index, used, name_used, string_at(block.skip(at))->0);
}

/// A block that is the front of a literal header, with the rest cut off, is
/// sound: it is for the decoder to find the mistake.
pub proof fn law_cut_literal_is_sound(
    high: u8,
    mask: u8,
    index: nat,
    name: Seq<u8>,
    value: Seq<u8>,
    compressed_name: bool,
    compressed_value: bool,
    length: int,
)
    requires
        (high == 0x40 && mask == 63) || (high == 0x10 && mask == 15) || (high == 0 && mask == 15),
        index < 0x1000_0000,
        name.len() < 0x1000_0000,
        value.len() < 0x1000_0000,
    ensures
        ({
            let field = integer_octets(high, mask, index) + (if index == 0 {
                string_octets(compressed_name, name)
            } else {
                Seq::empty()
            }) + string_octets(compressed_value, value);
            0 < length < field.len() ==> is_sound(field.take(length))
        }),
{
    let field = integer_octets(high, mask, index) + (if index == 0 {
        string_octets(compressed_name, name)
    } else {
        Seq::empty()
    }) + string_octets(compressed_value, value);
    if 0 < length < field.len() {
        let block = field.take(length);
        lemma_literal_octets(
            high,
            mask,
            index,
            name,
            value,
            compressed_name,
            compressed_value,
            Seq::empty(),
        );
        assert(field + Seq::<u8>::empty() =~= field);
        assert(block[0] == field[0]);
        assert(high <= block[0] <= high + mask);
        if literal_at(block, mask) is Some {
            lemma_literal_longer(block, mask, field.skip(length));
            assert(block + field.skip(length) =~= field);
        }
        assert(field_at(block) is None);
    }
}

/// What a long integer says: every octet behind the first adds seven bits, the
/// later ones worth more, and the first of them with a clear top bit is the
/// last. It is no integer where there is none up to the fifth octet.
pub proof fn law_integer_steps(block: Seq<u8>, at: nat)
    ensures
        at >= 5 || at >= block.len() ==> integer_rest(block, at) is None,
        at < 5 && at < block.len() && block[at as int] < 128 ==> integer_rest(block, at) == Some(
            (block[at as int] as nat, at + 1),
        ),
        at < 5 && at < block.len() && block[at as int] >= 128 ==> match integer_rest(
            block,
            at + 1,
        ) {
            Some((rest, end)) => integer_rest(block, at) == Some(
                ((block[at as int] - 128 + 128 * rest) as nat, end),
            ),
            None => integer_rest(block, at) is None,
        },
{
}

} // verus!
