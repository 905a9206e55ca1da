//! Byte orders and the value of a four-byte frame.

use byteorder::{BigEndian, ByteOrder, LittleEndian};
use vstd::prelude::*;

verus! {

/// The byte order in which a frame encodes its sample.
#[derive(Debug, Clone, Copy, PartialEq, Eq, Structural)]
pub enum Endianness {
    /// The first byte of a frame is the least significant.
    Little,
    /// The first byte of a frame is the most significant.
    Big,
}

impl Default for Endianness {
    /// Frames are big-endian unless configured otherwise.
    fn default() -> (order: Self)
        ensures
            order == Endianness::Big,
    {
        Endianness::Big
    }
}

/// The signed 32-bit number whose two's complement digits in base 256 are
/// `b3 b2 b1 b0`, most significant first.
pub open spec fn twos_complement(b3: u8, b2: u8, b1: u8, b0: u8) -> i32 {
    let unsigned = b3 * 0x100_0000 + b2 * 0x1_0000 + b1 * 0x100 + b0;
    if unsigned < 0x8000_0000 {
        unsigned as i32
    } else {
        (unsigned - 0x1_0000_0000) as i32
    }
}

/// The sample that the first four bytes of `frame` encode in byte order `order`.
pub open spec fn frame_value(order: Endianness, frame: Seq<u8>) -> i32
    recommends
        frame.len() >= 4,
{
    match order {
        Endianness::Big => twos_complement(frame[0], frame[1], frame[2], frame[3]),
        Endianness::Little => twos_complement(frame[3], frame[2], frame[1], frame[0]),
    }
}

/// The four bytes that encode `value` in byte order `order`: the base-256
/// digits of its two's complement.
pub open spec fn frame_bytes(order: Endianness, value: i32) -> Seq<u8> {
    let unsigned = if value < 0 {
        value + 0x1_0000_0000
    } else {
        value as int
    };
    let b0 = (unsigned % 0x100) as u8;
    let b1 = (unsigned / 0x100 % 0x100) as u8;
    let b2 = (unsigned / 0x100 / 0x100 % 0x100) as u8;
    let b3 = (unsigned / 0x100 / 0x100 / 0x100) as u8;
    match order {
        Endianness::Big => seq![b3, b2, b1, b0],
        Endianness::Little => seq![b0, b1, b2, b3],
    }
}

/// A number below 2^32 is the value of its four base-256 digits.
proof fn lemma_digits(unsigned: int)
    requires
        0 <= unsigned < 0x1_0000_0000,
    ensures
        unsigned / 0x100 / 0x100 / 0x100 < 0x100,
        unsigned == (unsigned / 0x100 / 0x100 / 0x100) * 0x100_0000 + (unsigned / 0x100 / 0x100
            % 0x100) * 0x1_0000 + (unsigned / 0x100 % 0x100) * 0x100 + unsigned % 0x100,
{
}

/// The four base-256 digits of a number are recovered by division.
proof fn lemma_digits_of(b3: u8, b2: u8, b1: u8, b0: u8)
    ensures
        ({
            let unsigned = b3 * 0x100_0000 + b2 * 0x1_0000 + b1 * 0x100 + b0;
            &&& 0 <= unsigned < 0x1_0000_0000
            &&& unsigned % 0x100 == b0
            &&& unsigned / 0x100 % 0x100 == b1
            &&& unsigned / 0x100 / 0x100 % 0x100 == b2
            &&& unsigned / 0x100 / 0x100 / 0x100 == b3
        }),
{
}

/// Decoding undoes encoding: in either byte order, the frame that encodes a
/// sample decodes to that sample.
pub proof fn lemma_decode_encode(order: Endianness, value: i32)
    ensures
        frame_bytes(order, value).len() == 4,
        frame_value(order, frame_bytes(order, value)) == value,
{
    let unsigned = if value < 0 {
        value + 0x1_0000_0000
    } else {
        value as int
    };
    lemma_digits(unsigned);
}

/// Encoding undoes decoding: in either byte order, a frame is the encoding of
/// the sample it decodes to, so distinct frames decode to distinct samples.
pub proof fn lemma_encode_decode(order: Endianness, frame: Seq<u8>)
    requires
        frame.len() == 4,
    ensures
        frame_bytes(order, frame_value(order, frame)) == frame,
{
    match order {
        Endianness::Big => lemma_digits_of(frame[0], frame[1], frame[2], frame[3]),
        Endianness::Little => lemma_digits_of(frame[3], frame[2], frame[1], frame[0]),
    }
}

/// Calls `byteorder::LittleEndian::read_i32`, which reads the first four bytes
/// of the slice as a little-endian two's complement number and panics on a
/// shorter slice.
#[verifier::external_body]
pub(crate) fn read_i32_le(bytes: &[u8]) -> (value: i32)
    requires
        bytes@.len() >= 4,
    ensures
        value == frame_value(Endianness::Little, bytes@),
{
    LittleEndian::read_i32(bytes)
}

/// Calls `byteorder::BigEndian::read_i32`, which reads the first four bytes of
/// the slice as a big-endian two's complement number and panics on a shorter
/// slice.
#[verifier::external_body]
pub(crate) fn read_i32_be(bytes: &[u8]) -> (value: i32)
    requires
        bytes@.len() >= 4,
    ensures
        value == frame_value(Endianness::Big, bytes@),
{
    BigEndian::read_i32(bytes)
}

} // verus!
