//! [`RollingStats`]: the window, its running aggregates and the stream decoder
//! that feeds it.

use crate::endianness::{frame_value, read_i32_be, read_i32_le, Endianness};
use crate::model::{lemma_add_no_samples, RollingStatsView, MAX_WINDOW_SIZE};
use crate::storage::{
    buffer_as_slice, buffer_clear, buffer_extend_from_slice, buffer_items, buffer_new, queue_items,
    queue_len, queue_new, queue_pop_front, queue_push_back, queue_to_vec,
};
use crate::stream::{frames, lemma_frame_at, lemma_short_stream, lemma_stream_end, pending};
use crate::window::{
    keep_latest, lemma_keep_latest_append, lemma_square_bound, lemma_total_bounds,
    lemma_total_drop_first, lemma_total_push, total, total_squares,
};
use vstd::prelude::*;
use vstd::slice::slice_subrange;

verus! {

/// The window size of [`RollingStats::default`].
pub const DEFAULT_WINDOW_SIZE: usize = 3;

/// The reason a configuration was rejected: its window size is zero or
/// exceeds [`MAX_WINDOW_SIZE`].
#[derive(Debug, Clone, Copy, PartialEq, Eq, Structural)]
pub struct InvalidConfiguration {
    /// The window size that was asked for.
    pub window_size: usize,
}

/// Running statistics over the most recent samples of a stream.
#[derive(Debug)]
pub struct RollingStats {
    /// The size of the rolling window.
    window_size: usize,
    /// The byte order of incoming frames.
    endianness: Endianness,
    /// The samples in the rolling window, oldest first.
    values: heapless::Deque<i32, 10>,
    /// The bytes left over from the last write.
    remainder: heapless::Vec<u8, 4>,
    /// The sum of the samples in the window.
    sum: i64,
    /// The sum of the squares of the samples in the window. Two squares of
    /// `i32` samples can already exceed 64 bits, so this scalar is wider than
    /// the sum.
    sum_of_squares: i128,
}

impl View for RollingStats {
    type V = RollingStatsView;

    closed spec fn view(&self) -> RollingStatsView {
        RollingStatsView {
            window_size: self.window_size as nat,
            endianness: self.endianness,
            values: queue_items(self.values),
            remainder: buffer_items(self.remainder),
            sum: self.sum as int,
            sum_of_squares: self.sum_of_squares as int,
        }
    }
}

/// The square of a sample.
fn square(value: i32) -> (squared: i128)
    ensures
        squared == value * value,
{
    proof {
        lemma_square_bound(value);
    }
    let wide: i128 = value as i128;
    wide * wide
}

impl RollingStats {
    /// Whether the state invariant holds. Every constructor establishes it and
    /// every method preserves it.
    pub open spec fn wf(&self) -> bool {
        self@.wf()
    }

    /// Creates an empty window of the given size for frames in the given byte
    /// order.
    pub fn new(window_size: usize, endianness: Endianness) -> (stats: Self)
        requires
            0 < window_size <= MAX_WINDOW_SIZE,
        ensures
            stats.wf(),
            stats@ == RollingStatsView::empty(window_size as nat, endianness),
    {
        RollingStats {
            window_size,
            endianness,
            values: queue_new(),
            remainder: buffer_new(),
            sum: 0,
            sum_of_squares: 0,
        }
    }

    /// Creates an empty window as [`RollingStats::new`] does, or reports the
    /// window size as invalid if it is zero or exceeds [`MAX_WINDOW_SIZE`].
    pub fn try_new(
        window_size: usize,
        endianness: Endianness,
    ) -> (made: Result<Self, InvalidConfiguration>)
        ensures
            match made {
                Ok(stats) => {
                    &&& 0 < window_size <= MAX_WINDOW_SIZE
                    &&& stats.wf()
                    &&& stats@ == RollingStatsView::empty(window_size as nat, endianness)
                },
                Err(error) => {
                    &&& window_size == 0 || window_size > MAX_WINDOW_SIZE
                    &&& error.window_size == window_size
                },
            },
    {
        if window_size > 0 && window_size <= MAX_WINDOW_SIZE {
            Ok(RollingStats::new(window_size, endianness))
        } else {
            Err(InvalidConfiguration { window_size })
        }
    }

    /// The largest number of samples that the window retains.
    pub fn window_size(&self) -> (size: usize)
        ensures
            size == self@.window_size,
    {
        self.window_size
    }

    /// The byte order in which frames are decoded.
    pub fn endianness(&self) -> (order: Endianness)
        ensures
            order == self@.endianness,
    {
        self.endianness
    }

    /// The number of samples in the window.
    pub fn len(&self) -> (len: usize)
        ensures
            len == self@.values.len(),
    {
        queue_len(&self.values)
    }

    /// The samples in the window, oldest first.
    pub fn values(&self) -> (samples: Vec<i32>)
        ensures
            samples@ == self@.values,
    {
        queue_to_vec(&self.values)
    }

    /// The bytes received after the last complete frame.
    pub fn remainder(&self) -> (bytes: &[u8])
        ensures
            bytes@ == self@.remainder,
    {
        buffer_as_slice(&self.remainder)
    }

    /// The sum of the samples in the window.
    pub fn sum(&self) -> (sum: i64)
        ensures
            sum == self@.sum,
            self.wf() ==> sum == total(self@.values),
    {
        self.sum
    }

    /// The sum of the squares of the samples in the window.
    pub fn sum_of_squares(&self) -> (sum_of_squares: i128)
        ensures
            sum_of_squares == self@.sum_of_squares,
            self.wf() ==> sum_of_squares == total_squares(self@.values),
    {
        self.sum_of_squares
    }

    /// Adds a sample to the window, evicting the oldest one first if the
    /// window is full.
    pub fn add_sample(&mut self, value: i32)
        requires
            old(self).wf(),
        ensures
            final(self).wf(),
            final(self)@ == old(self)@.add_sample(value),
    {
        let ghost before = queue_items(self.values);
        proof {
            lemma_total_bounds(before);
        }
        if queue_len(&self.values) == self.window_size {
            if let Some(removed) = queue_pop_front(&mut self.values) {
                proof {
                    lemma_total_drop_first(before);
                    lemma_total_bounds(before.drop_first());
                }
                self.sum -= removed as i64;
                self.sum_of_squares -= square(removed);
            }
        }
        let ghost kept = queue_items(self.values);
        proof {
            lemma_total_bounds(kept);
            lemma_total_push(kept, value);
            lemma_square_bound(value);
        }
        let _ = queue_push_back(&mut self.values, value);
        self.sum += value as i64;
        self.sum_of_squares += square(value);
        proof {
            assert(queue_items(self.values) =~= keep_latest(
                before + seq![value],
                self.window_size as nat,
            ));
        }
    }

    /// Decodes a frame of exactly four bytes in the configured byte order.
    pub fn read_i32_from_bytes(&self, bytes: &[u8]) -> (value: i32)
        requires
            bytes@.len() == 4,
        ensures
            value == frame_value(self@.endianness, bytes@),
    {
        match self.endianness {
            Endianness::Little => read_i32_le(bytes),
            Endianness::Big => read_i32_be(bytes),
        }
    }

    /// Feeds a chunk of the byte stream to the decoder and returns the number
    /// of bytes consumed, which is always the whole chunk.
    ///
    /// The bytes carried over from earlier chunks and `buf` are read as one
    /// stream. Each complete frame is decoded and added to the window, and the
    /// bytes after the last complete frame are carried over to the next call.
    pub fn write(&mut self, buf: &[u8]) -> (consumed: usize)
        requires
            old(self).wf(),
        ensures
            final(self).wf(),
            consumed == buf@.len(),
            final(self)@ == old(self)@.write(buf@),
            final(self)@.remainder.len() == (old(self)@.remainder.len() + buf@.len()) % 4,
    {
        let ghost before = self@;
        let ghost stream = before.remainder + buf@;
        let ghost decoded = frames(before.endianness, stream);
        let ghost mut count: int = 0;
        let mut bytes_consumed: usize = 0;
        let mut start: usize = 0;
        let carried = buffer_as_slice(&self.remainder).len();
        if carried != 0 {
            start = 4 - carried;
            if buf.len() >= start {
                let _ = buffer_extend_from_slice(&mut self.remainder, slice_subrange(buf, 0, start));
                let value = self.read_i32_from_bytes(buffer_as_slice(&self.remainder));
                proof {
                    lemma_frame_at(before.endianness, stream, 0);
                    lemma_next_frame(before.values, decoded, 0, before.window_size);
                    count = 1;
                }
                buffer_clear(&mut self.remainder);
                self.add_sample(value);
                bytes_consumed += start;
            } else {
                let _ = buffer_extend_from_slice(&mut self.remainder, buf);
                proof {
                    lemma_short_stream(before.endianness, stream);
                    lemma_add_no_samples(before);
                }
                return buf.len();
            }
        }
        let mut position: usize = start;
        while buf.len() - position >= 4
            invariant
                before.wf(),
                self.wf(),
                position <= buf@.len(),
                bytes_consumed == position,
                stream == before.remainder + buf@,
                decoded == frames(before.endianness, stream),
                4 * count == before.remainder.len() + position,
                0 <= count <= decoded.len(),
                self@.window_size == before.window_size,
                self@.endianness == before.endianness,
                self@.remainder.len() == 0,
                self@.values == keep_latest(
                    before.values + decoded.take(count),
                    before.window_size,
                ),
            decreases buf@.len() - position,
        {
            let value = self.read_i32_from_bytes(slice_subrange(buf, position, position + 4));
            proof {
                lemma_frame_at(before.endianness, stream, count);
                lemma_next_frame(before.values, decoded, count, before.window_size);
                count = count + 1;
            }
            self.add_sample(value);
            bytes_consumed += 4;
            position += 4;
        }
        proof {
            lemma_stream_end(before.endianness, stream, count);
            assert(decoded.take(count) =~= decoded);
        }
        if position < buf.len() {
            let _ = buffer_extend_from_slice(
                &mut self.remainder,
                slice_subrange(buf, position, buf.len()),
            );
            bytes_consumed += buf.len() - position;
        }
        proof {
            assert(self@.remainder =~= pending(stream));
        }
        bytes_consumed
    }
}

/// Adding the next decoded sample to a window that retains the latest of the
/// first `count` retains the latest of the first `count + 1`.
proof fn lemma_next_frame(held: Seq<i32>, decoded: Seq<i32>, count: int, capacity: nat)
    requires
        0 <= count < decoded.len(),
    ensures
        keep_latest(
            keep_latest(held + decoded.take(count), capacity) + seq![decoded[count]],
            capacity,
        ) == keep_latest(held + decoded.take(count + 1), capacity),
{
    lemma_keep_latest_append(held + decoded.take(count), seq![decoded[count]], capacity);
}

impl Default for RollingStats {
    /// A window of [`DEFAULT_WINDOW_SIZE`] samples for big-endian frames.
    fn default() -> (stats: Self)
        ensures
            stats.wf(),
            stats@ == RollingStatsView::empty(DEFAULT_WINDOW_SIZE as nat, Endianness::Big),
    {
        RollingStats::new(DEFAULT_WINDOW_SIZE, Endianness::default())
    }
}

} // verus!
