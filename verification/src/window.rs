//! The mathematics of a bounded first-in first-out window: which samples it
//! retains and what their aggregates are.

use vstd::prelude::*;

verus! {

/// The sum of `samples`.
pub open spec fn total(samples: Seq<i32>) -> int
    decreases samples.len(),
{
    if samples.len() == 0 {
        0
    } else {
        total(samples.drop_last()) + samples.last()
    }
}

/// The sum of the squares of `samples`.
pub open spec fn total_squares(samples: Seq<i32>) -> int
    decreases samples.len(),
{
    if samples.len() == 0 {
        0
    } else {
        total_squares(samples.drop_last()) + samples.last() * samples.last()
    }
}

/// The most recent `capacity` items of `samples`, or all of them if there are
/// fewer.
pub open spec fn keep_latest(samples: Seq<i32>, capacity: nat) -> Seq<i32> {
    if samples.len() <= capacity {
        samples
    } else {
        samples.subrange(samples.len() - capacity, samples.len() as int)
    }
}

/// Appending a sample adds it to the sum and its square to the sum of squares.
pub proof fn lemma_total_push(samples: Seq<i32>, value: i32)
    ensures
        total(samples.push(value)) == total(samples) + value,
        total_squares(samples.push(value)) == total_squares(samples) + value * value,
{
    assert(samples.push(value).drop_last() =~= samples);
}

/// Removing the oldest sample takes it out of the sum and its square out of
/// the sum of squares.
pub proof fn lemma_total_drop_first(samples: Seq<i32>)
    requires
        samples.len() > 0,
    ensures
        total(samples.drop_first()) == total(samples) - samples[0],
        total_squares(samples.drop_first()) == total_squares(samples) - samples[0] * samples[0],
    decreases samples.len(),
{
    if samples.len() == 1 {
        assert(samples.drop_last() =~= Seq::<i32>::empty());
        assert(samples.drop_first() =~= Seq::<i32>::empty());
    } else {
        lemma_total_drop_first(samples.drop_last());
        assert(samples.drop_first().drop_last() =~= samples.drop_last().drop_first());
    }
}

/// The square of an `i32` is at most 2^62.
pub proof fn lemma_square_bound(value: i32)
    ensures
        0 <= value * value <= 0x4000_0000_0000_0000,
{
    assert(0 <= value * value <= 0x4000_0000_0000_0000) by (nonlinear_arith)
        requires
            -0x8000_0000 <= value <= 0x7fff_ffff,
    ;
}

/// The aggregates of `samples` grow at most linearly with their number.
pub proof fn lemma_total_bounds(samples: Seq<i32>)
    ensures
        -0x8000_0000 * samples.len() <= total(samples) <= 0x7fff_ffff * samples.len(),
        0 <= total_squares(samples) <= 0x4000_0000_0000_0000 * samples.len(),
    decreases samples.len(),
{
    if samples.len() > 0 {
        lemma_total_bounds(samples.drop_last());
        lemma_square_bound(samples.last());
    }
}

/// The squared distances of `samples` from any `centre` add up to a number
/// that is not negative.
proof fn lemma_deviation_nonnegative(samples: Seq<i32>, centre: int)
    ensures
        total_squares(samples) - 2 * centre * total(samples) + samples.len() * centre * centre
            >= 0,
    decreases samples.len(),
{
    if samples.len() > 0 {
        let earlier = samples.drop_last();
        let last = samples.last() as int;
        let count = earlier.len() as int;
        let sum = total(earlier);
        let squares = total_squares(earlier);
        lemma_deviation_nonnegative(earlier, centre);
        assert((squares + last * last) - 2 * centre * (sum + last) + (count + 1) * centre * centre
            == (squares - 2 * centre * sum + count * centre * centre) + (last - centre) * (last
            - centre)) by (nonlinear_arith);
        assert((last - centre) * (last - centre) >= 0) by (nonlinear_arith);
    }
}

/// The population variance is never negative: for `n` samples with sum `s`
/// and sum of squares `q`, `n * q >= s * s`, so `q / n - (s / n)^2 >= 0` in
/// exact arithmetic.
pub proof fn lemma_variance_nonnegative(samples: Seq<i32>)
    ensures
        samples.len() * total_squares(samples) >= total(samples) * total(samples),
    decreases samples.len(),
{
    if samples.len() > 0 {
        let earlier = samples.drop_last();
        let last = samples.last() as int;
        let count = earlier.len() as int;
        let sum = total(earlier);
        let squares = total_squares(earlier);
        lemma_variance_nonnegative(earlier);
        lemma_deviation_nonnegative(earlier, last);
        assert((count + 1) * (squares + last * last) - (sum + last) * (sum + last) == (count
            * squares - sum * sum) + (squares - 2 * last * sum + count * last * last))
            by (nonlinear_arith);
    }
}

/// Keeping the latest samples after every addition retains the same samples as
/// keeping the latest once at the end.
pub proof fn lemma_keep_latest_append(earlier: Seq<i32>, later: Seq<i32>, capacity: nat)
    ensures
        keep_latest(keep_latest(earlier, capacity) + later, capacity) == keep_latest(
            earlier + later,
            capacity,
        ),
{
}

} // verus!
