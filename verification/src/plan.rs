//! Durations and segment counts.
//!
//! All counts are in sample values with the channels interleaved, so one
//! second of audio holds `sample_rate * channels` of them. For a mono stream
//! a sample value is a frame.

use vstd::prelude::*;
use crate::format::{AudioFormat, FormatView, SEGMENT_SECONDS};

verus! {

/// `a / b` rounded up, for `a >= 0` and `b > 0`.
pub open spec fn ceil_div(a: int, b: int) -> int {
    if a % b == 0 {
        a / b
    } else {
        a / b + 1
    }
}

/// Whole seconds of audio in `total_frames` sample values.
pub open spec fn spec_duration_seconds(format: FormatView, total_frames: int) -> int {
    total_frames / format.samples_per_second()
}

/// Number of segments needed for a duration in whole seconds.
pub open spec fn spec_segment_count(duration_seconds: int) -> int {
    ceil_div(duration_seconds, SEGMENT_SECONDS as int)
}

/// Number of segments that exhaustive extraction plans for a stream: the
/// segment count of its duration in whole seconds.
pub open spec fn planned_segments(format: FormatView, total_frames: int) -> int {
    spec_segment_count(spec_duration_seconds(format, total_frames))
}

/// Number of segments needed to hold every sample value of a stream.
pub open spec fn covering_segments(format: FormatView, total_frames: int) -> int {
    ceil_div(total_frames, format.frame_budget())
}

/// `ceil_div(a, b) * b` reaches `a`, and no smaller multiple of `b` does.
pub proof fn lemma_ceil_div(a: int, b: int)
    requires
        0 <= a,
        0 < b,
    ensures
        0 <= ceil_div(a, b),
        a <= ceil_div(a, b) * b,
        a > 0 ==> (ceil_div(a, b) - 1) * b < a,
        a == 0 ==> ceil_div(a, b) == 0,
{
    let q = a / b;
    let r = a % b;
    assert(a == q * b + r && 0 <= r < b && 0 <= q) by (nonlinear_arith)
        requires
            0 <= a,
            0 < b,
            q == a / b,
            r == a % b,
    ;
    let c = ceil_div(a, b);
    assert(c * b == q * b + (c - q) * b) by (nonlinear_arith);
    assert((c - 1) * b == c * b - b) by (nonlinear_arith);
}

/// `ceil_div(a, b)` is the least `n` with `n * b >= a`.
pub proof fn lemma_ceil_div_is_least(a: int, b: int, n: int)
    requires
        0 <= a,
        0 < b,
        n * b >= a,
    ensures
        n >= ceil_div(a, b),
{
    lemma_ceil_div(a, b);
    let c = ceil_div(a, b);
    if n < c {
        assert(n * b <= (c - 1) * b) by (nonlinear_arith)
            requires
                n <= c - 1,
                0 < b,
        ;
        assert((c - 1) * b == c * b - b) by (nonlinear_arith);
        assert(a == 0 ==> c * b == 0) by (nonlinear_arith)
            requires
                a == 0 ==> c == 0,
        ;
    }
}

/// A planned segment always starts inside the stream: no planned draw
/// comes up empty on a stream read from its start.
pub proof fn lemma_planned_draws_are_not_empty(format: FormatView, total_frames: int, index: int)
    requires
        format.valid(),
        0 <= total_frames,
        0 <= index < planned_segments(format, total_frames),
    ensures
        index * format.frame_budget() < total_frames,
{
    let s = format.samples_per_second();
    let d = spec_duration_seconds(format, total_frames);
    assert(1 <= s) by (nonlinear_arith)
        requires
            s == format.sample_rate * format.channels,
            1 <= format.sample_rate,
            1 <= format.channels,
    ;
    assert(total_frames == d * s + total_frames % s && 0 <= total_frames % s && 0 <= d) by (nonlinear_arith)
        requires
            0 <= total_frames,
            0 < s,
            d == total_frames / s,
    ;
    lemma_ceil_div(d, SEGMENT_SECONDS as int);
    // index <= planned - 1, and (planned - 1) * 10 < d
    assert(index * 10 < d) by (nonlinear_arith)
        requires
            0 <= index <= planned_segments(format, total_frames) - 1,
            d > 0 ==> (planned_segments(format, total_frames) - 1) * 10 < d,
            d == 0 ==> planned_segments(format, total_frames) == 0,
            0 <= d,
    ;
    assert(index * format.frame_budget() == (index * 10) * s) by (nonlinear_arith)
        requires
            format.frame_budget() == s * 10,
    ;
    assert((index * 10) * s <= (d - 1) * s) by (nonlinear_arith)
        requires
            index * 10 <= d - 1,
            0 < s,
    ;
    assert((d - 1) * s == d * s - s) by (nonlinear_arith);
}

/// The planned count never exceeds the covering count, and falls short of
/// it by at most one: by the segment that would hold a trailing part shorter
/// than one second after a whole number of segments.
pub proof fn lemma_planned_and_covering(format: FormatView, total_frames: int)
    requires
        format.valid(),
        0 <= total_frames,
    ensures
        0 <= planned_segments(format, total_frames) <= covering_segments(format, total_frames),
        covering_segments(format, total_frames) <= planned_segments(format, total_frames) + 1,
        planned_segments(format, total_frames) == covering_segments(format, total_frames)
            <==> total_frames <= planned_segments(format, total_frames) * format.frame_budget(),
{
    let s = format.samples_per_second();
    let b = format.frame_budget();
    let d = spec_duration_seconds(format, total_frames);
    let p = planned_segments(format, total_frames);
    let c = covering_segments(format, total_frames);
    assert(1 <= s && b == s * 10 && 1 <= b) by (nonlinear_arith)
        requires
            s == format.sample_rate * format.channels,
            b == format.sample_rate * format.channels * 10,
            1 <= format.sample_rate,
            1 <= format.channels,
    ;
    assert(total_frames == d * s + total_frames % s && 0 <= total_frames % s < s && 0 <= d) by (nonlinear_arith)
        requires
            0 <= total_frames,
            0 < s,
            d == total_frames / s,
    ;
    lemma_ceil_div(d, SEGMENT_SECONDS as int);
    lemma_ceil_div(total_frames, b);
    // p <= c: c segments hold all of the stream, so c * 10 seconds cover d
    assert(c * 10 >= d) by (nonlinear_arith)
        requires
            total_frames <= c * b,
            b == s * 10,
            d * s <= total_frames,
            0 < s,
    ;
    // c <= p + 1: p + 1 segments hold d + 1 seconds or more
    assert((p + 1) * b >= total_frames) by (nonlinear_arith)
        requires
            d <= p * 10,
            b == s * 10,
            total_frames < d * s + s,
            0 < s,
    ;
    lemma_ceil_div_is_least(d, SEGMENT_SECONDS as int, c);
    lemma_ceil_div_is_least(total_frames, b, p + 1);
    if total_frames <= p * b {
        lemma_ceil_div_is_least(total_frames, b, p);
    }
    if p == c {
        assert(total_frames <= p * b);
    }
}

/// Whole seconds of audio in `total_frames` sample values of the given
/// format; a trailing part shorter than one second is not counted.
pub fn duration_seconds(format: &AudioFormat, total_frames: u64) -> (seconds: u64)
    ensures
        seconds == spec_duration_seconds(format@, total_frames as int),
{
    total_frames / format.samples_per_second()
}

/// Number of ten-second segments for a duration in whole seconds, rounded
/// up; an exact multiple of ten gets no extra segment.
pub fn segment_count(duration_seconds: u64) -> (count: u64)
    ensures
        count == spec_segment_count(duration_seconds as int),
        duration_seconds % 10 == 0 ==> count == duration_seconds / 10,
        duration_seconds % 10 != 0 ==> count == duration_seconds / 10 + 1,
{
    let whole = duration_seconds / SEGMENT_SECONDS;
    if duration_seconds % SEGMENT_SECONDS != 0 {
        whole + 1
    } else {
        whole
    }
}

/// How a stream of a given length is cut up.
#[derive(Clone, Copy, Debug, PartialEq, Eq, Structural)]
pub struct SegmentationPlan {
    /// Length of a full segment in seconds.
    pub segment_seconds: u64,
    /// Sample values in a full segment.
    pub frame_budget: u64,
    /// Whole seconds of audio in the stream.
    pub duration_seconds: u64,
    /// Segments needed to hold every sample value of the stream.
    pub segment_count: u64,
    /// Segments that exhaustive extraction cuts from the stream: as many as
    /// its duration in whole seconds asks for.
    pub planned_count: u64,
}

impl SegmentationPlan {
    /// The plan for `total_frames` sample values of the given format.
    pub fn new(format: &AudioFormat, total_frames: u64) -> (plan: SegmentationPlan)
        ensures
            plan.segment_seconds == SEGMENT_SECONDS,
            plan.frame_budget == format@.frame_budget(),
            plan.duration_seconds == spec_duration_seconds(format@, total_frames as int),
            plan.segment_count == covering_segments(format@, total_frames as int),
            plan.planned_count == planned_segments(format@, total_frames as int),
            plan.planned_count <= plan.segment_count <= plan.planned_count + 1,
    {
        let frame_budget = format.frame_budget();
        let whole = total_frames / frame_budget;
        proof {
            assert(total_frames == whole * frame_budget + total_frames % frame_budget
                && whole * frame_budget >= whole) by (nonlinear_arith)
                requires
                    whole == total_frames / frame_budget,
                    1 <= frame_budget,
            ;
        }
        let covering = if total_frames % frame_budget != 0 {
            whole + 1
        } else {
            whole
        };
        let seconds = duration_seconds(format, total_frames);
        proof {
            lemma_planned_and_covering(format@, total_frames as int);
        }
        SegmentationPlan {
            segment_seconds: SEGMENT_SECONDS,
            frame_budget,
            duration_seconds: seconds,
            segment_count: covering,
            planned_count: segment_count(seconds),
        }
    }
}

} // verus!
