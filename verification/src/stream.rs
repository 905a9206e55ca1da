//! The mathematics of cutting a byte stream into four-byte frames.

use crate::endianness::{frame_value, Endianness};
use vstd::prelude::*;

verus! {

/// The samples encoded by the complete frames of `stream`, in order.
pub open spec fn frames(order: Endianness, stream: Seq<u8>) -> Seq<i32> {
    Seq::new(
        (stream.len() / 4) as nat,
        |i: int| frame_value(order, stream.subrange(4 * i, 4 * i + 4)),
    )
}

/// The bytes of `stream` that follow its last complete frame: at most three.
pub open spec fn pending(stream: Seq<u8>) -> Seq<u8> {
    stream.subrange(stream.len() - stream.len() % 4, stream.len() as int)
}

/// Where a whole frame lies in the stream, the frame's sample is decoded from
/// those four bytes.
pub proof fn lemma_frame_at(order: Endianness, stream: Seq<u8>, index: int)
    requires
        0 <= index,
        4 * index + 4 <= stream.len(),
    ensures
        index < frames(order, stream).len(),
        frames(order, stream)[index] == frame_value(
            order,
            stream.subrange(4 * index, 4 * index + 4),
        ),
{
}

/// Once `count` frames have been taken and fewer than four bytes are left,
/// every frame has been taken and the bytes left are the pending ones.
pub proof fn lemma_stream_end(order: Endianness, stream: Seq<u8>, count: int)
    requires
        0 <= 4 * count <= stream.len() < 4 * count + 4,
    ensures
        frames(order, stream).len() == count,
        pending(stream) == stream.subrange(4 * count, stream.len() as int),
{
}

/// A stream shorter than a frame holds no sample and is pending as a whole.
pub proof fn lemma_short_stream(order: Endianness, stream: Seq<u8>)
    requires
        stream.len() < 4,
    ensures
        frames(order, stream) == Seq::<i32>::empty(),
        pending(stream) == stream,
{
}

/// Cutting a stream in two at any point loses no frame: the frames of the
/// whole are those of the head followed by those of the head's pending bytes
/// joined to the tail, and the same bytes remain pending at the end.
pub proof fn lemma_split_stream(order: Endianness, head: Seq<u8>, tail: Seq<u8>)
    ensures
        frames(order, head + tail) == frames(order, head) + frames(
            order,
            pending(head) + tail,
        ),
        pending(head + tail) == pending(pending(head) + tail),
{
}

} // verus!
