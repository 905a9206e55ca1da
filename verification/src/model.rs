//! The mathematical model of a [`RollingStats`](crate::RollingStats): its
//! state as plain values, how the operations change it, and the laws that
//! follow.

use crate::endianness::Endianness;
use crate::stream::{frames, lemma_short_stream, lemma_split_stream, pending};
use crate::window::{
    keep_latest, lemma_keep_latest_append, lemma_total_drop_first, lemma_total_push, total,
    total_squares,
};
use vstd::prelude::*;

verus! {

/// The largest window that a [`RollingStats`] can be configured with.
pub const MAX_WINDOW_SIZE: usize = 10;

/// What a [`RollingStats`] holds, as mathematical values.
pub struct RollingStatsView {
    /// The largest number of samples retained.
    pub window_size: nat,
    /// The byte order of incoming frames.
    pub endianness: Endianness,
    /// The retained samples, oldest first.
    pub values: Seq<i32>,
    /// The bytes received after the last complete frame.
    pub remainder: Seq<u8>,
    /// The running sum.
    pub sum: int,
    /// The running sum of squares.
    pub sum_of_squares: int,
}

impl RollingStatsView {
    /// The state invariant: the window size is within its limits, the window
    /// is not over-full, fewer than four bytes are carried, and the running
    /// aggregates are exactly those of the retained samples.
    pub open spec fn wf(self) -> bool {
        &&& 0 < self.window_size <= MAX_WINDOW_SIZE
        &&& self.values.len() <= self.window_size
        &&& self.remainder.len() < 4
        &&& self.sum == total(self.values)
        &&& self.sum_of_squares == total_squares(self.values)
    }

    /// The state right after construction: nothing retained, nothing carried.
    pub open spec fn empty(window_size: nat, endianness: Endianness) -> Self {
        RollingStatsView {
            window_size,
            endianness,
            values: Seq::empty(),
            remainder: Seq::empty(),
            sum: 0,
            sum_of_squares: 0,
        }
    }

    /// The state after `samples` have arrived in order: the window retains the
    /// most recent `window_size` samples of those it held and those that came,
    /// and the aggregates are those of what it retains.
    pub open spec fn add_samples(self, samples: Seq<i32>) -> Self {
        let values = keep_latest(self.values + samples, self.window_size);
        RollingStatsView {
            values,
            sum: total(values),
            sum_of_squares: total_squares(values),
            ..self
        }
    }

    /// The state after one sample has arrived.
    pub open spec fn add_sample(self, value: i32) -> Self {
        self.add_samples(seq![value])
    }

    /// The state after the samples have arrived one at a time.
    pub open spec fn add_each(self, samples: Seq<i32>) -> Self
        decreases samples.len(),
    {
        if samples.len() == 0 {
            self
        } else {
            self.add_each(samples.drop_last()).add_sample(samples.last())
        }
    }

    /// The state after the bytes of `buf` have arrived: the carried bytes and
    /// `buf` form one stream, every complete frame of which is decoded and
    /// added, and what follows the last complete frame is carried.
    pub open spec fn write(self, buf: Seq<u8>) -> Self {
        let stream = self.remainder + buf;
        RollingStatsView {
            remainder: pending(stream),
            ..self.add_samples(frames(self.endianness, stream))
        }
    }

    /// The state after the chunks have been written one at a time.
    pub open spec fn write_each(self, chunks: Seq<Seq<u8>>) -> Self
        decreases chunks.len(),
    {
        if chunks.len() == 0 {
            self
        } else {
            self.write_each(chunks.drop_last()).write(chunks.last())
        }
    }
}

/// The chunks laid end to end.
pub open spec fn joined(chunks: Seq<Seq<u8>>) -> Seq<u8>
    decreases chunks.len(),
{
    if chunks.len() == 0 {
        Seq::empty()
    } else {
        joined(chunks.drop_last()) + chunks.last()
    }
}

/// Adding no samples changes nothing.
pub proof fn lemma_add_no_samples(state: RollingStatsView)
    requires
        state.wf(),
    ensures
        state.add_samples(Seq::empty()) == state,
{
}

/// Every operation preserves the state invariant: whatever samples or bytes
/// arrive, the window stays within its size, fewer than four bytes are
/// carried, and the running sum and sum of squares are exactly those of the
/// retained samples.
pub proof fn lemma_wf_preserved(state: RollingStatsView, samples: Seq<i32>, buf: Seq<u8>)
    requires
        state.wf(),
    ensures
        state.add_samples(samples).wf(),
        state.write(buf).wf(),
{
}

/// A full window evicts exactly its oldest sample to admit a new one; a
/// window with room evicts none.
pub proof fn lemma_add_sample_evicts_oldest(state: RollingStatsView, value: i32)
    requires
        state.wf(),
    ensures
        state.add_sample(value).values == if state.values.len() == state.window_size {
            state.values.drop_first().push(value)
        } else {
            state.values.push(value)
        },
        state.add_sample(value).sum == if state.values.len() == state.window_size {
            state.sum - state.values[0] + value
        } else {
            state.sum + value
        },
        state.add_sample(value).sum_of_squares == if state.values.len() == state.window_size {
            state.sum_of_squares - state.values[0] * state.values[0] + value * value
        } else {
            state.sum_of_squares + value * value
        },
{
    let kept = if state.values.len() == state.window_size {
        state.values.drop_first()
    } else {
        state.values
    };
    lemma_total_push(kept, value);
    if state.values.len() == state.window_size {
        lemma_total_drop_first(state.values);
    }
}

/// Adding samples in two batches is adding them all at once.
pub proof fn lemma_add_samples_append(
    state: RollingStatsView,
    earlier: Seq<i32>,
    later: Seq<i32>,
)
    ensures
        state.add_samples(earlier).add_samples(later) == state.add_samples(earlier + later),
{
    lemma_keep_latest_append(state.values + earlier, later, state.window_size);
    assert(state.values + earlier + later =~= state.values + (earlier + later));
}

/// First in, first out: after samples have been added one at a time the
/// window retains exactly the most recent `window_size` of everything it has
/// seen, and once at least `window_size` samples have been added it retains
/// exactly the last `window_size` of them.
pub proof fn lemma_add_each(state: RollingStatsView, samples: Seq<i32>)
    requires
        state.wf(),
    ensures
        state.add_each(samples) == state.add_samples(samples),
        state.add_each(samples).values == keep_latest(
            state.values + samples,
            state.window_size,
        ),
        samples.len() >= state.window_size ==> state.add_each(samples).values
            == samples.subrange(samples.len() - state.window_size, samples.len() as int),
    decreases samples.len(),
{
    if samples.len() == 0 {
        lemma_add_no_samples(state);
    } else {
        lemma_add_each(state, samples.drop_last());
        lemma_add_samples_append(state, samples.drop_last(), seq![samples.last()]);
        assert(samples.drop_last() + seq![samples.last()] =~= samples);
    }
}

/// The aggregates never drift: after each of any sequence of additions the
/// window is within its size and the running sum and sum of squares are
/// exactly those recomputed from the samples it retains.
pub proof fn lemma_aggregates_exact(state: RollingStatsView, samples: Seq<i32>)
    requires
        state.wf(),
    ensures
        forall|count: int|
            0 <= count <= samples.len() ==> {
                let reached = #[trigger] state.add_each(samples.take(count));
                &&& reached.values.len() <= reached.window_size
                &&& reached.sum == total(reached.values)
                &&& reached.sum_of_squares == total_squares(reached.values)
            },
{
    assert forall|count: int| 0 <= count <= samples.len() implies {
        let reached = #[trigger] state.add_each(samples.take(count));
        &&& reached.values.len() <= reached.window_size
        &&& reached.sum == total(reached.values)
        &&& reached.sum_of_squares == total_squares(reached.values)
    } by {
        lemma_add_each(state, samples.take(count));
    }
}

/// A write carries over as many bytes as the stream so far holds beyond its
/// last complete frame, and every byte of the stream is either part of a
/// decoded frame or carried.
pub proof fn lemma_write_remainder(state: RollingStatsView, buf: Seq<u8>)
    ensures
        state.write(buf).remainder.len() == (state.remainder.len() + buf.len()) % 4,
        4 * frames(state.endianness, state.remainder + buf).len() + state.write(
            buf,
        ).remainder.len() == state.remainder.len() + buf.len(),
{
}

/// Writing a stream in two chunks, cut at any point, leaves the same state as
/// writing it in one.
pub proof fn lemma_write_split(state: RollingStatsView, head: Seq<u8>, tail: Seq<u8>)
    ensures
        state.write(head).write(tail) == state.write(head + tail),
{
    let stream = state.remainder + head;
    lemma_split_stream(state.endianness, stream, tail);
    lemma_add_samples_append(
        state,
        frames(state.endianness, stream),
        frames(state.endianness, pending(stream) + tail),
    );
    assert(stream + tail =~= state.remainder + (head + tail));
}

/// Writing nothing changes nothing.
pub proof fn lemma_write_nothing(state: RollingStatsView)
    requires
        state.wf(),
    ensures
        state.write(Seq::empty()) == state,
{
    lemma_short_stream(state.endianness, state.remainder);
    lemma_add_no_samples(state);
}

/// However a stream is cut into chunks, writing the chunks in order leaves
/// the same state as writing the whole stream at once.
pub proof fn lemma_write_each(state: RollingStatsView, chunks: Seq<Seq<u8>>)
    requires
        state.wf(),
    ensures
        state.write_each(chunks) == state.write(joined(chunks)),
    decreases chunks.len(),
{
    if chunks.len() == 0 {
        lemma_write_nothing(state);
    } else {
        lemma_write_each(state, chunks.drop_last());
        lemma_write_split(state, joined(chunks.drop_last()), chunks.last());
    }
}

} // verus!
