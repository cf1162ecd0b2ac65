//! How the body of a request is written.
use vstd::prelude::*;

verus! {

/// The end of a line.
pub const LINE_ENDING: &'static str = "\r\n";

/// The two octets of the end of a line.
pub open spec fn line_end() -> Seq<u8> {
    seq![0x0du8, 0x0au8]
}

/// The octet of a hexadecimal digit, in upper case.
pub open spec fn hex_digit(n: nat) -> u8 {
    if n < 10 {
        (0x30 + n) as u8
    } else {
        (0x37 + n) as u8
    }
}

/// A number in hexadecimal, without leading zeros.
pub open spec fn hex(n: nat) -> Seq<u8>
    decreases n,
{
    if n < 16 {
        seq![hex_digit(n)]
    } else {
        hex(n / 16).push(hex_digit(n % 16))
    }
}

/// A piece of a body as a chunk: its length, and the piece itself, each with
/// the end of a line behind it.
pub open spec fn chunk(piece: Seq<u8>) -> Seq<u8> {
    hex(piece.len()) + line_end() + piece + line_end()
}

/// How the body of a request is written.
#[derive(PartialEq, Eq, Structural, Debug, Copy, Clone)]
pub enum HttpWriter {
    /// As it is.
    ThroughWriter,
    /// Piece by piece, each with its length before it.
    ChunkedWriter,
    /// As it is, as long as there is room for it: what is left of a length
    /// that was announced.
    SizedWriter(u64),
    /// Not at all.
    EmptyWriter,
}

impl HttpWriter {
    /// How many octets of a piece are written.
    pub open spec fn taken(self, piece: Seq<u8>) -> nat {
        match self {
            HttpWriter::ThroughWriter => piece.len(),
            HttpWriter::ChunkedWriter => piece.len(),
            HttpWriter::SizedWriter(left) => if piece.len() <= left {
                piece.len()
            } else {
                left as nat
            },
            HttpWriter::EmptyWriter => 0,
        }
    }

    /// What goes over the wire for a piece.
    pub open spec fn written(self, piece: Seq<u8>) -> Seq<u8> {
        match self {
            HttpWriter::ChunkedWriter => chunk(piece),
            _ => piece.take(self.taken(piece) as int),
        }
    }

    /// The writer once a piece has been written.
    pub open spec fn after(self, piece: Seq<u8>) -> HttpWriter {
        match self {
            HttpWriter::SizedWriter(left) => HttpWriter::SizedWriter(
                (left - self.taken(piece)) as u64,
            ),
            _ => self,
        }
    }

    /// What goes over the wire for several pieces, one after the other.
    pub open spec fn written_all(self, pieces: Seq<Seq<u8>>) -> Seq<u8>
        decreases pieces.len(),
    {
        if pieces.len() == 0 {
            Seq::empty()
        } else {
            self.written(pieces[0]) + self.after(pieces[0]).written_all(pieces.drop_first())
        }
    }

    /// What goes over the wire at the end of a body: the empty chunk, where
    /// the body is written in chunks.
    pub open spec fn last(self) -> Seq<u8> {
        self.written(Seq::empty())
    }

    /// Returns what has to go over the wire for a piece of a body, and how
    /// many octets of the piece that covers.
    pub fn write(&mut self, piece: &[u8]) -> (written: (Vec<u8>, usize))
        ensures
            written.0@ == old(self).written(piece@),
            written.1 == old(self).taken(piece@),
            *final(self) == old(self).after(piece@),
    {
        match *self {
            HttpWriter::ThroughWriter => {
                assert(piece@.take(piece@.len() as int) =~= piece@);
                (vstd::slice::slice_to_vec(piece), piece.len())
            },
            HttpWriter::ChunkedWriter => {
                let mut octets: Vec<u8> = Vec::new();
                push_hex(&mut octets, piece.len());
                octets.push(0x0d);
                octets.push(0x0a);
                octets.extend_from_slice(piece);
                octets.push(0x0d);
                octets.push(0x0a);
                assert(octets@ =~= chunk(piece@));
                (octets, piece.len())
            },
            HttpWriter::SizedWriter(left) => {
                let taken: usize = if piece.len() as u64 > left {
                    left as usize
                } else {
                    piece.len()
                };
                *self = HttpWriter::SizedWriter(left - taken as u64);
                let part: &[u8] = vstd::slice::slice_subrange(piece, 0, taken);
                assert(part@ =~= piece@.take(taken as int));
                (vstd::slice::slice_to_vec(part), taken)
            },
            HttpWriter::EmptyWriter => {
                assert(piece@.take(0) =~= Seq::<u8>::empty());
                (Vec::new(), 0)
            },
        }
    }

    /// Returns what has to go over the wire at the end of a body.
    pub fn end(self) -> (octets: Vec<u8>)
        ensures
            octets@ == self.last(),
    {
        let mut writer = self;
        let nothing: Vec<u8> = Vec::new();
        let (octets, _) = writer.write(nothing.as_slice());
        octets
    }
}

/// Appends a number in hexadecimal.
fn push_hex(buf: &mut Vec<u8>, n: usize)
    ensures
        final(buf)@ == old(buf)@ + hex(n as nat),
    decreases n,
{
    if n >= 16 {
        push_hex(buf, n / 16);
    }
    let digit: u8 = (n % 16) as u8;
    if digit < 10 {
        buf.push(0x30 + digit);
    } else {
        buf.push(0x37 + digit);
    }
    assert(buf@ =~= old(buf)@ + hex(n as nat));
}

/// All pieces of a body joined.
pub open spec fn joined(pieces: Seq<Seq<u8>>) -> Seq<u8>
    decreases pieces.len(),
{
    if pieces.len() == 0 {
        Seq::empty()
    } else {
        pieces[0] + joined(pieces.drop_first())
    }
}

/// The octets that go over the wire for a body of announced length are the
/// body itself, up to that length, whatever the pieces that it is written in.
pub proof fn law_sized_body(length: u64, pieces: Seq<Seq<u8>>)
    ensures
        HttpWriter::SizedWriter(length).written_all(pieces) == joined(pieces).take(
            if joined(pieces).len() <= length {
                joined(pieces).len() as int
            } else {
                length as int
            },
        ),
        HttpWriter::SizedWriter(length).last() == Seq::<u8>::empty(),
    decreases pieces.len(),
{
    let writer = HttpWriter::SizedWriter(length);
    if pieces.len() != 0 {
        let left = (length - writer.taken(pieces[0])) as u64;
        law_sized_body(left, pieces.drop_first());
    }
    assert(writer.written_all(pieces) =~= joined(pieces).take(
        if joined(pieces).len() <= length {
            joined(pieces).len() as int
        } else {
            length as int
        },
    ));
}

/// Where there is no body, no octet of one goes over the wire.
pub proof fn law_no_body(pieces: Seq<Seq<u8>>)
    ensures
        HttpWriter::EmptyWriter.written_all(pieces) == Seq::<u8>::empty(),
        HttpWriter::EmptyWriter.last() == Seq::<u8>::empty(),
    decreases pieces.len(),
{
    if pieces.len() != 0 {
        law_no_body(pieces.drop_first());
        assert(HttpWriter::EmptyWriter.written_all(pieces) =~= Seq::<u8>::empty());
    }
}

/// The value of a hexadecimal digit.
pub open spec fn hex_digit_value(octet: u8) -> Option<nat> {
    if 0x30 <= octet <= 0x39 {
        Some((octet - 0x30) as nat)
    } else if 0x41 <= octet <= 0x46 {
        Some((octet - 0x37) as nat)
    } else if 0x61 <= octet <= 0x66 {
        Some((octet - 0x57) as nat)
    } else {
        None
    }
}

/// How many hexadecimal digits there are at the front.
pub open spec fn hex_run(octets: Seq<u8>) -> nat
    decreases octets.len(),
{
    if octets.len() == 0 || hex_digit_value(octets[0]) is None {
        0
    } else {
        1 + hex_run(octets.drop_first())
    }
}

/// The number that hexadecimal digits stand for.
pub open spec fn hex_value(digits: Seq<u8>) -> nat
    decreases digits.len(),
{
    if digits.len() == 0 {
        0
    } else {
        16 * hex_value(digits.drop_last()) + hex_digit_value(digits.last()).unwrap_or(0)
    }
}

/// The piece in the chunk at the front, and what is behind the chunk.
pub open spec fn first_chunk(octets: Seq<u8>) -> Option<(Seq<u8>, Seq<u8>)> {
    let run = hex_run(octets) as int;
    let start = run + 2;
    let end = start + hex_value(octets.take(run));
    if run > 0 && end + 2 <= octets.len() && octets.subrange(run, start) == line_end()
        && octets.subrange(end, end + 2) == line_end() {
        Some((octets.subrange(start, end), octets.skip(end + 2)))
    } else {
        None
    }
}

/// The body in the chunks at the front, up to the first empty one, and what
/// is behind that.
pub open spec fn chunked_body(octets: Seq<u8>) -> Option<(Seq<u8>, Seq<u8>)>
    decreases octets.len(),
{
    match first_chunk(octets) {
        Some((piece, rest)) => if piece.len() == 0 {
            Some((piece, rest))
        } else if rest.len() < octets.len() {
            match chunked_body(rest) {
                Some((body, behind)) => Some((piece + body, behind)),
                None => None,
            }
        } else {
            None
        },
        None => None,
    }
}

/// A number in hexadecimal is at least one digit, nothing but digits, and
/// gives the number back.
pub proof fn law_hex_read_back(n: nat)
    ensures
        hex(n).len() > 0,
        forall|i: int|
            0 <= i < hex(n).len() ==> hex_digit_value(#[trigger] hex(n)[i]) is Some,
        hex_value(hex(n)) == n,
    decreases n,
{
    if n < 16 {
        reveal_with_fuel(hex_value, 2);
    } else {
        law_hex_read_back(n / 16);
        assert(hex(n).drop_last() =~= hex(n / 16));
    }
}

/// The digits in front of something that is no digit are all counted.
proof fn lemma_hex_run(digits: Seq<u8>, behind: Seq<u8>)
    requires
        forall|i: int|
            0 <= i < digits.len() ==> hex_digit_value(#[trigger] digits[i]) is Some,
        behind.len() > 0,
        hex_digit_value(behind[0]) is None,
    ensures
        hex_run(digits + behind) == digits.len(),
    decreases digits.len(),
{
    let all = digits + behind;
    if digits.len() != 0 {
        let rest = digits.drop_first();
        assert forall|i: int| 0 <= i < rest.len() implies hex_digit_value(
            #[trigger] rest[i],
        ) is Some by {
            assert(rest[i] == digits[i + 1]);
        }
        lemma_hex_run(rest, behind);
        assert(all.drop_first() =~= rest + behind);
        assert(all[0] == digits[0]);
    } else {
        assert(all =~= behind);
    }
}

/// A chunk gives back the piece that went into it, and exactly its own octets
/// are taken.
pub proof fn law_chunk_read_back(piece: Seq<u8>, rest: Seq<u8>)
    ensures
        first_chunk(chunk(piece) + rest) == Some((piece, rest)),
{
    let digits = hex(piece.len());
    let octets = chunk(piece) + rest;
    let behind = line_end() + piece + line_end() + rest;
    law_hex_read_back(piece.len());
    lemma_hex_run(digits, behind);
    assert(octets =~= digits + behind);
    let run = digits.len() as int;
    let end = run + 2 + piece.len();
    assert(octets.take(run) =~= digits);
    assert(octets.subrange(run, run + 2) =~= line_end());
    assert(octets.subrange(end, end + 2) =~= line_end());
    assert(octets.subrange(run + 2, end) =~= piece);
    assert(octets.skip(end + 2) =~= rest);
}

/// A body that is written in chunks is read back as it was, as long as no
/// piece of it is empty: an empty one ends the body.
pub proof fn law_chunked_body(pieces: Seq<Seq<u8>>, rest: Seq<u8>)
    requires
        forall|i: int| 0 <= i < pieces.len() ==> (#[trigger] pieces[i]).len() > 0,
    ensures
        chunked_body(
            HttpWriter::ChunkedWriter.written_all(pieces) + HttpWriter::ChunkedWriter.last() + rest,
        ) == Some((joined(pieces), rest)),
    decreases pieces.len(),
{
    let writer = HttpWriter::ChunkedWriter;
    let octets = writer.written_all(pieces) + writer.last() + rest;
    if pieces.len() == 0 {
        assert(octets =~= chunk(Seq::empty()) + rest);
        law_chunk_read_back(Seq::empty(), rest);
    } else {
        let others = pieces.drop_first();
        assert forall|i: int| 0 <= i < others.len() implies (#[trigger] others[i]).len() > 0 by {
            assert(others[i] == pieces[i + 1]);
        }
        let behind = writer.written_all(others) + writer.last() + rest;
        law_chunked_body(others, rest);
        law_chunk_read_back(pieces[0], behind);
        assert(octets =~= chunk(pieces[0]) + behind);
    }
}

/// The length of a chunk is given in digits and upper-case letters, without
/// leading zeros.
pub proof fn law_hex_digits(n: nat)
    ensures
        hex(n).len() > 0,
        forall|i: int|
            0 <= i < hex(n).len() ==> 0x30 <= #[trigger] hex(n)[i] <= 0x39 || 0x41 <= hex(n)[i]
                <= 0x46,
        hex(n)[0] == 0x30 ==> n == 0 && hex(n).len() == 1,
    decreases n,
{
    if n >= 16 {
        law_hex_digits(n / 16);
    }
}

/// A number with one digit more is sixteen times the number without it, and
/// that digit.
pub proof fn law_hex_steps(n: nat, digit: nat)
    requires
        n > 0,
        digit < 16,
    ensures
        hex(16 * n + digit).len() == hex(n).len() + 1,
        hex(16 * n + digit).drop_last() == hex(n),
        hex(digit).len() == 1,
        hex(digit)[0] == (if digit < 10 {
            0x30 + digit as int
        } else {
            0x41 + digit - 10
        }),
        hex(16 * n + digit).last() == hex(digit)[0],
{
    assert((16 * n + digit) / 16 == n);
    assert((16 * n + digit) % 16 == digit);
    assert(hex(16 * n + digit).drop_last() =~= hex(n));
}

/// What a chunk is made of: the length of the piece, the end of a line, the
/// piece as it is, and the end of a line.
pub proof fn law_chunk_layout(piece: Seq<u8>)
    ensures
        chunk(piece) == hex(piece.len()) + seq![13u8, 10u8] + piece + seq![13u8, 10u8],
{
}

/// What one write does. Octets pass through as they are, and all of them. In
/// chunks, too, all of them are taken. Of an announced length, as many are
/// taken as there is room for, from the front, and there is that much less
/// room afterwards. Where there is no body, none is taken.
pub proof fn law_one_write(piece: Seq<u8>, left: u64)
    ensures
        HttpWriter::ThroughWriter.written(piece) == piece,
        HttpWriter::ThroughWriter.taken(piece) == piece.len(),
        HttpWriter::ThroughWriter.after(piece) == HttpWriter::ThroughWriter,
        HttpWriter::ChunkedWriter.written(piece) == chunk(piece),
        HttpWriter::ChunkedWriter.taken(piece) == piece.len(),
        HttpWriter::ChunkedWriter.after(piece) == HttpWriter::ChunkedWriter,
        HttpWriter::EmptyWriter.written(piece).len() == 0,
        HttpWriter::EmptyWriter.taken(piece) == 0,
        HttpWriter::EmptyWriter.after(piece) == HttpWriter::EmptyWriter,
        ({
            let writer = HttpWriter::SizedWriter(left);
            let taken = writer.taken(piece);
            &&& taken <= piece.len() && taken <= left
            &&& taken == piece.len() || taken == left
            &&& writer.written(piece) == piece.take(taken as int)
            &&& writer.after(piece) matches HttpWriter::SizedWriter(room) && room + taken == left
        }),
{
    assert(HttpWriter::ThroughWriter.written(piece) =~= piece);
}

/// What ends a body: an empty chunk, where it is written in chunks, and
/// otherwise nothing.
pub proof fn law_end_of_body(left: u64)
    ensures
        HttpWriter::ChunkedWriter.last() == seq![0x30u8, 13, 10, 13, 10],
        HttpWriter::SizedWriter(left).last().len() == 0,
        HttpWriter::EmptyWriter.last().len() == 0,
        HttpWriter::ThroughWriter.last().len() == 0,
{
    assert(hex(0) =~= seq![0x30u8]);
    assert(HttpWriter::ChunkedWriter.last() =~= seq![0x30u8, 13, 10, 13, 10]);
}

} // verus!
