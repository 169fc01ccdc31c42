//! The packed slider answer buffer: three little-endian 32-bit header
//! fields — the answer's x, its y, and the byte length of the piece image —
//! followed by the piece bytes and then the background bytes. The header
//! fields are signed on the wire; every value written here is non-negative,
//! so their unsigned and signed readings agree.

use vstd::prelude::*;
use vstd::assert_seqs_equal;

verus! {

/// The four little-endian bytes of a 32-bit value.
pub open spec fn le_bytes(x: u32) -> Seq<u8> {
    seq![
        (x & 0xff) as u8,
        ((x >> 8) & 0xff) as u8,
        ((x >> 16) & 0xff) as u8,
        ((x >> 24) & 0xff) as u8,
    ]
}

/// The 32-bit value held by four little-endian bytes.
pub open spec fn le_value(b0: u8, b1: u8, b2: u8, b3: u8) -> u32 {
    (b0 as u32) | ((b1 as u32) << 8) | ((b2 as u32) << 16) | ((b3 as u32) << 24)
}

/// Reading back the four little-endian bytes of a value gives the value.
pub proof fn lemma_le_round_trip(x: u32)
    ensures
        le_value(
            le_bytes(x)[0],
            le_bytes(x)[1],
            le_bytes(x)[2],
            le_bytes(x)[3],
        ) == x,
{
    assert((((x & 0xff) as u8) as u32) | (((((x >> 8) & 0xff) as u8) as u32) << 8) | (((((x
        >> 16) & 0xff) as u8) as u32) << 16) | (((((x >> 24) & 0xff) as u8) as u32) << 24)
        == x) by (bit_vector);
}

/// The whole packed buffer for answer `(x, y)`, piece bytes `piece` and
/// background bytes `background`.
pub open spec fn packed(x: u32, y: u32, piece: Seq<u8>, background: Seq<u8>) -> Seq<u8> {
    le_bytes(x) + le_bytes(y) + le_bytes(piece.len() as u32) + piece + background
}

/// Append the four little-endian bytes of `x`.
fn write_le(out: &mut Vec<u8>, x: u32)
    ensures
        final(out)@ == old(out)@ + le_bytes(x),
{
    proof {
        assert(x & 0xff < 256 && (x >> 8) & 0xff < 256 && (x >> 16) & 0xff < 256 && (x >> 24)
            & 0xff < 256) by (bit_vector);
    }
    out.push((x & 0xff) as u8);
    out.push(((x >> 8) & 0xff) as u8);
    out.push(((x >> 16) & 0xff) as u8);
    out.push(((x >> 24) & 0xff) as u8);
    proof {
        assert_seqs_equal!(out@ == old(out)@ + le_bytes(x));
    }
}

/// Pack an answer position and the two encoded rasters into the wire buffer.
pub fn pack_result(x: u32, y: u32, piece: &Vec<u8>, background: &Vec<u8>) -> (out: Vec<u8>)
    requires
        x < 0x8000_0000,
        y < 0x8000_0000,
        piece@.len() < 0x8000_0000,
    ensures
        out@ == packed(x, y, piece@, background@),
        out@.len() == 12 + piece@.len() + background@.len(),
{
    let mut out: Vec<u8> = Vec::new();
    write_le(&mut out, x);
    write_le(&mut out, y);
    write_le(&mut out, piece.len() as u32);
    out.extend_from_slice(piece.as_slice());
    out.extend_from_slice(background.as_slice());
    proof {
        assert_seqs_equal!(out@ == packed(x, y, piece@, background@));
    }
    out
}

/// Read the 32-bit little-endian field at byte `offset`.
pub fn read_le(buffer: &Vec<u8>, offset: usize) -> (x: u32)
    requires
        offset + 4 <= buffer@.len(),
    ensures
        x == le_value(
            buffer@[offset as int],
            buffer@[offset as int + 1],
            buffer@[offset as int + 2],
            buffer@[offset as int + 3],
        ),
{
    let _n: usize = buffer.len();
    (buffer[offset] as u32) | ((buffer[offset + 1] as u32) << 8u32) | ((buffer[offset + 2]
        as u32) << 16u32) | ((buffer[offset + 3] as u32) << 24u32)
}

/// Law: the packed buffer is exactly twelve bytes longer than the two data
/// blocks together, its three header fields read back as `x`, `y` and the
/// piece length, and the piece and background bytes follow unchanged.
pub proof fn lemma_pack_round_trip(x: u32, y: u32, piece: Seq<u8>, background: Seq<u8>)
    requires
        x < 0x8000_0000,
        y < 0x8000_0000,
        piece.len() < 0x8000_0000,
    ensures
        packed(x, y, piece, background).len() == 12 + piece.len() + background.len(),
        le_value(
            packed(x, y, piece, background)[0],
            packed(x, y, piece, background)[1],
            packed(x, y, piece, background)[2],
            packed(x, y, piece, background)[3],
        ) == x,
        le_value(
            packed(x, y, piece, background)[4],
            packed(x, y, piece, background)[5],
            packed(x, y, piece, background)[6],
            packed(x, y, piece, background)[7],
        ) == y,
        le_value(
            packed(x, y, piece, background)[8],
            packed(x, y, piece, background)[9],
            packed(x, y, piece, background)[10],
            packed(x, y, piece, background)[11],
        ) == piece.len(),
        packed(x, y, piece, background).subrange(12, 12 + piece.len() as int) == piece,
        packed(x, y, piece, background).subrange(
            12 + piece.len() as int,
            packed(x, y, piece, background).len() as int,
        ) == background,
{
    let buf = packed(x, y, piece, background);
    lemma_le_round_trip(x);
    lemma_le_round_trip(y);
    lemma_le_round_trip(piece.len() as u32);
    assert((piece.len() as u32) as int == piece.len() as int);
    assert_seqs_equal!(buf.subrange(12, 12 + piece.len() as int) == piece);
    assert_seqs_equal!(buf.subrange(12 + piece.len() as int, buf.len() as int) == background);
}

} // verus!
