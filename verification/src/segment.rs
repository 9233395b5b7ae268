//! Cutting a stream into segments of at most ten seconds, each written out
//! as a container of its own.
//!
//! Exhaustive extraction plans its number of draws from the duration of the
//! whole stream in whole seconds. A draw that would come up empty is not
//! made: no empty segment is ever emitted. On a stream read from its start
//! every planned draw finds samples, so the number of segments is the
//! planned count.

use vstd::prelude::*;
use crate::error::AudioError;
use crate::format::{lemma_supported_sizes, AudioFormat, FormatView, MAX_CONTAINER_SAMPLES};
use crate::plan::{
    ceil_div, covering_segments, duration_seconds, lemma_ceil_div, lemma_planned_and_covering,
    planned_segments, segment_count, SegmentationPlan,
};
use crate::stream::{encode_pcm, spec_encode, spec_open, AudioStream, StreamView};
use crate::wav::wav_encoded;

verus! {

/// A segment as a mathematical value.
pub struct SegmentView {
    pub index: int,
    pub format: FormatView,
    pub frame_count: int,
    pub bytes: Seq<u8>,
}

/// One window of a stream, serialized as a container of its own.
#[derive(Clone, Debug, PartialEq, Eq)]
pub struct Segment {
    /// Position of the segment in its stream, counted from zero.
    pub index: u64,
    /// The format the segment was cut with: that of its stream.
    pub format: AudioFormat,
    /// Number of sample values in the segment.
    pub frame_count: u64,
    /// The serialized container.
    pub bytes: Vec<u8>,
}

impl View for Segment {
    type V = SegmentView;

    open spec fn view(&self) -> SegmentView {
        SegmentView {
            index: self.index as int,
            format: self.format@,
            frame_count: self.frame_count as int,
            bytes: self.bytes@,
        }
    }
}

/// Where the window with the given index ends among `remaining` sample
/// values: a full budget after its start, or at the end of the stream.
pub open spec fn window_end(remaining: int, budget: int, index: int) -> int {
    if (index + 1) * budget <= remaining {
        (index + 1) * budget
    } else {
        remaining
    }
}

/// The sample values of the window with the given index, counted from the
/// cursor of the stream.
pub open spec fn spec_chunk(stream: StreamView, index: int) -> Seq<i16> {
    let budget = stream.format.frame_budget();
    let remaining = stream.remaining();
    remaining.subrange(index * budget, window_end(remaining.len() as int, budget, index))
}

/// The segment that holds the window with the given index.
pub open spec fn spec_segment(stream: StreamView, index: int) -> SegmentView {
    SegmentView {
        index,
        format: stream.format,
        frame_count: spec_chunk(stream, index).len() as int,
        bytes: wav_encoded(
            stream.format.sample_rate as u32,
            stream.format.channels as u16,
            spec_chunk(stream, index),
        ),
    }
}

/// What indexed extraction yields: nothing where the window starts at or
/// past the end of what is left of the stream, else the segment of that
/// window, provided the window can be written: it holds whole frames and
/// no more samples than one container takes.
pub open spec fn spec_extract(stream: StreamView, index: int) -> Result<SegmentView, AudioError> {
    if index * stream.format.frame_budget() >= stream.remaining().len() {
        Err(AudioError::EmptyOrShort)
    } else {
        match spec_encode(stream.format, spec_chunk(stream, index)) {
            Err(e) => Err(e),
            Ok(bytes) => Ok(spec_segment(stream, index)),
        }
    }
}

/// Whether the first window of what is left of the stream, which is its
/// longest, holds no more samples than one container takes.
pub open spec fn windows_fit(stream: StreamView) -> bool {
    spec_chunk(stream, 0).len() <= MAX_CONTAINER_SAMPLES
}

/// Number of draws that exhaustive extraction makes: the count planned from
/// the duration of the whole stream, but no draw beyond the end of what is
/// left of it.
pub open spec fn spec_emitted(stream: StreamView) -> int {
    let planned = planned_segments(stream.format, stream.total_frames());
    let covering = covering_segments(stream.format, stream.remaining().len() as int);
    if planned <= covering {
        planned
    } else {
        covering
    }
}

/// The first `count` segments of a stream, in order.
pub open spec fn spec_segments(stream: StreamView, count: int) -> Seq<SegmentView> {
    Seq::new(count as nat, |i: int| spec_segment(stream, i))
}

/// What exhaustive extraction yields: the segments of all its draws in
/// order, or a failure where one of the windows cannot be written.
pub open spec fn spec_extract_all(stream: StreamView) -> Result<Seq<SegmentView>, AudioError> {
    if forall|i: int| 0 <= i < spec_emitted(stream) ==> (#[trigger] spec_extract(stream, i)) is Ok {
        Ok(spec_segments(stream, spec_emitted(stream)))
    } else {
        Err(AudioError::SerializationFailure)
    }
}

/// Whether `bytes` is a container that stands on its own: opening it yields
/// a fresh stream with the format of `stream` and the sample values of the
/// window with the given index.
pub open spec fn holds_window(stream: StreamView, index: int, bytes: Seq<u8>) -> bool {
    spec_open(bytes) == Ok::<StreamView, AudioError>(
        StreamView::fresh(stream.format, spec_chunk(stream, index)),
    )
}

/// The views of a sequence of segments.
pub open spec fn segment_views(segments: Seq<Segment>) -> Seq<SegmentView> {
    segments.map_values(|s: Segment| s@)
}

/// Sum of the frame counts of a sequence of segments.
pub open spec fn frames_in(segments: Seq<SegmentView>) -> int
    decreases segments.len(),
{
    if segments.len() == 0 {
        0
    } else {
        frames_in(segments.drop_last()) + segments.last().frame_count
    }
}

/// Length of the window with the given index among `remaining` sample
/// values: a full budget, or what is left where that is less.
pub proof fn lemma_chunk_len(stream: StreamView, index: int)
    requires
        stream.valid(),
        0 <= index,
        index * stream.format.frame_budget() < stream.remaining().len(),
    ensures
        spec_chunk(stream, index).len() == window_end(
            stream.remaining().len() as int,
            stream.format.frame_budget(),
            index,
        ) - index * stream.format.frame_budget(),
        0 < spec_chunk(stream, index).len() <= stream.format.frame_budget(),
        spec_chunk(stream, index).len() <= spec_chunk(stream, 0).len(),
{
    let budget = stream.format.frame_budget();
    lemma_supported_sizes(stream.format);
    assert((index + 1) * budget == index * budget + budget) by (nonlinear_arith);
    assert(0 <= index * budget) by (nonlinear_arith)
        requires
            0 <= index,
            0 <= budget,
    ;
    assert((0 + 1) * budget == budget && 0 * budget == 0) by (nonlinear_arith);
}

/// A window that starts inside the stream belongs to a segment that the
/// covering count includes, and the other way round.
pub proof fn lemma_window_starts_inside(remaining: int, budget: int, index: int)
    requires
        0 <= remaining,
        0 < budget,
        0 <= index,
    ensures
        index * budget < remaining <==> index < ceil_div(remaining, budget),
{
    lemma_ceil_div(remaining, budget);
    let c = ceil_div(remaining, budget);
    if index * budget < remaining {
        if index >= c {
            assert(index * budget >= c * budget) by (nonlinear_arith)
                requires
                    index >= c,
                    0 < budget,
            ;
        }
    }
    if index < c {
        assert(index * budget <= (c - 1) * budget) by (nonlinear_arith)
            requires
                index <= c - 1,
                0 < budget,
        ;
    }
}

/// Skipping `skip` sample values and then taking `len` is taking a
/// subrange of what was left before.
proof fn lemma_skip_then_take(stream: StreamView, skip: int, len: int)
    requires
        stream.valid(),
        0 <= skip,
        0 <= len,
        skip + len <= stream.remaining().len(),
    ensures
        stream.advanced(skip).remaining().take(len) == stream.remaining().subrange(
            skip,
            skip + len,
        ),
{
    assert(stream.advanced(skip).remaining().take(len) =~= stream.remaining().subrange(
        skip,
        skip + len,
    ));
}

/// Indexed extraction: passes over `index` full windows, collects the next
/// window and writes it into a container of its own.
///
/// Fails with `EmptyOrShort` where the window starts at or past the end of
/// what is left of the stream, whether the index is out of range or the
/// stream is empty. Fails with `SerializationFailure` where the window
/// cannot be written: it does not hold whole frames, or it holds more
/// samples than one container takes.
pub fn extract(stream: AudioStream, index: u64) -> (r: Result<Segment, AudioError>)
    ensures
        match r {
            Ok(segment) => spec_extract(stream@, index as int) == Ok::<SegmentView, AudioError>(
                segment@,
            ),
            Err(e) => spec_extract(stream@, index as int) == Err::<SegmentView, AudioError>(e),
        },
        r matches Ok(segment) ==> holds_window(stream@, index as int, segment.bytes@),
{
    let mut cursor = stream;
    let format = cursor.format();
    let budget = format.frame_budget();
    let remaining = cursor.remaining_frames();
    let whole = remaining / budget;
    proof {
        assert(remaining == whole * budget + remaining % budget && 0 <= whole * budget <= remaining)
            by (nonlinear_arith)
            requires
                whole == remaining / budget,
                1 <= budget,
        ;
    }
    if index > whole {
        proof {
            assert(index * budget >= (whole + 1) * budget) by (nonlinear_arith)
                requires
                    index >= whole + 1,
                    1 <= budget,
            ;
            assert((whole + 1) * budget == whole * budget + budget) by (nonlinear_arith);
        }
        return Err(AudioError::EmptyOrShort);
    }
    proof {
        assert(0 <= index * budget <= whole * budget) by (nonlinear_arith)
            requires
                0 <= index <= whole,
                1 <= budget,
        ;
    }
    let to_skip = index * budget;
    if to_skip >= remaining {
        return Err(AudioError::EmptyOrShort);
    }
    cursor.skip(to_skip);
    proof {
        assert(cursor@.remaining().len() == remaining - to_skip);
    }
    let chunk = cursor.draw(budget);
    proof {
        lemma_chunk_len(stream@, index as int);
        assert((index + 1) * budget == index * budget + budget) by (nonlinear_arith);
        lemma_skip_then_take(stream@, to_skip as int, chunk@.len() as int);
        assert(chunk@ == spec_chunk(stream@, index as int));
    }
    match encode_pcm(&format, &chunk) {
        Ok(bytes) => Ok(Segment { index, format, frame_count: chunk.len() as u64, bytes }),
        Err(e) => Err(e),
    }
}

/// Exhaustive extraction: plans the number of segments from the duration of
/// the whole stream, then draws one window after the other from the cursor
/// on and writes each into a container of its own.
///
/// No draw is made past the end of the stream, so every segment holds at
/// least one sample value; the last one may hold less than a full window.
/// Fails as a whole, with `SerializationFailure`, where a window cannot be
/// written: it does not hold whole frames, or it holds more samples than
/// one container takes.
pub fn extract_all(stream: AudioStream) -> (r: Result<Vec<Segment>, AudioError>)
    ensures
        match r {
            Ok(segments) => spec_extract_all(stream@) == Ok::<Seq<SegmentView>, AudioError>(
                segment_views(segments@),
            ),
            Err(e) => spec_extract_all(stream@) == Err::<Seq<SegmentView>, AudioError>(e),
        },
        r matches Ok(segments) ==> segments@.len() == spec_emitted(stream@) && forall|i: int|
            0 <= i < segments@.len() ==> (#[trigger] segments@[i])@ == spec_segment(stream@, i)
                && holds_window(stream@, i, segments@[i].bytes@),
{
    let mut cursor = stream;
    let format = cursor.format();
    let budget = format.frame_budget();
    let planned = segment_count(duration_seconds(&format, cursor.total_frames()));
    let covering = SegmentationPlan::new(&format, cursor.remaining_frames()).segment_count;
    let emitted = if planned <= covering {
        planned
    } else {
        covering
    };
    let ghost left = stream@.remaining().len() as int;
    let mut segments: Vec<Segment> = Vec::new();
    let mut index: u64 = 0;
    proof {
        assert(window_end(left, budget as int, -1) == 0);
        assert(cursor@ == stream@.advanced(0));
    }
    while index < emitted
        invariant
            stream@.valid(),
            cursor@.valid(),
            format@ == stream@.format,
            budget == stream@.format.frame_budget(),
            left == stream@.remaining().len(),
            emitted == spec_emitted(stream@),
            emitted <= covering_segments(stream@.format, left),
            index <= emitted,
            cursor@ == stream@.advanced(window_end(left, budget as int, index as int - 1)),
            segments@.len() == index,
            forall|i: int| 0 <= i < index ==> (#[trigger] spec_extract(stream@, i)) is Ok,
            forall|i: int| 0 <= i < index ==> (#[trigger] segments@[i])@ == spec_segment(stream@, i),
            forall|i: int|
                0 <= i < index ==> holds_window(stream@, i, (#[trigger] segments@[i]).bytes@),
        decreases emitted - index,
    {
        proof {
            lemma_supported_sizes(stream@.format);
            lemma_window_starts_inside(left, budget as int, index as int);
            lemma_chunk_len(stream@, index as int);
            assert((index as int - 1 + 1) * budget == index * budget);
            assert((index + 1) * budget == index * budget + budget) by (nonlinear_arith);
        }
        let chunk = cursor.draw(budget);
        proof {
            lemma_skip_then_take(stream@, index as int * budget as int, chunk@.len() as int);
            assert(chunk@ == spec_chunk(stream@, index as int));
        }
        match encode_pcm(&format, &chunk) {
            Ok(bytes) => {
                segments.push(Segment { index, format, frame_count: chunk.len() as u64, bytes });
            },
            Err(e) => {
                proof {
                    assert(e == AudioError::SerializationFailure);
                    assert(spec_extract(stream@, index as int) is Err);
                    assert(0 <= index < spec_emitted(stream@));
                    assert(spec_extract_all(stream@) is Err);
                }
                return Err(e);
            },
        }
        index = index + 1;
    }
    proof {
        assert(segment_views(segments@) =~= spec_segments(stream@, emitted as int));
    }
    Ok(segments)
}

/// The difference of two multiples of `c` is a multiple of `c`.
proof fn lemma_multiples_differ_by_multiple(a: int, b: int, c: int)
    requires
        0 < c,
        a % c == 0,
        b % c == 0,
    ensures
        (a - b) % c == 0,
{
    vstd::arithmetic::div_mod::lemma_fundamental_div_mod(a, c);
    vstd::arithmetic::div_mod::lemma_fundamental_div_mod(b, c);
    let q = a / c - b / c;
    assert(a - b == q * c) by (nonlinear_arith)
        requires
            a == c * (a / c),
            b == c * (b / c),
            q == a / c - b / c,
    ;
    vstd::arithmetic::div_mod::lemma_mod_multiples_basic(q, c);
}

/// A multiple of a multiple of `c` is a multiple of `c`.
proof fn lemma_multiple_of_multiple(n: int, b: int, c: int)
    requires
        0 < c,
        b % c == 0,
    ensures
        (n * b) % c == 0,
{
    vstd::arithmetic::div_mod::lemma_fundamental_div_mod(b, c);
    let q = n * (b / c);
    assert(n * b == q * c) by (nonlinear_arith)
        requires
            b == c * (b / c),
            q == n * (b / c),
    ;
    vstd::arithmetic::div_mod::lemma_mod_multiples_basic(q, c);
}

/// While the cursor stands on a frame boundary, every window holds whole
/// frames, so indexed extraction succeeds wherever the window starts inside
/// the stream and holds no more samples than one container takes.
pub proof fn lemma_windows_hold_whole_frames(stream: StreamView, index: int)
    requires
        stream.valid(),
        stream.position % stream.format.channels == 0,
        0 <= index,
        index * stream.format.frame_budget() < stream.remaining().len(),
    ensures
        spec_chunk(stream, index).len() % (stream.format.channels as nat) == 0,
        spec_extract(stream, index) == if spec_chunk(stream, index).len()
            <= MAX_CONTAINER_SAMPLES {
            Ok::<SegmentView, AudioError>(spec_segment(stream, index))
        } else {
            Err::<SegmentView, AudioError>(AudioError::SerializationFailure)
        },
        windows_fit(stream) ==> spec_extract(stream, index) == Ok::<SegmentView, AudioError>(
            spec_segment(stream, index),
        ),
{
    let budget = stream.format.frame_budget();
    let channels = stream.format.channels;
    let left = stream.remaining().len() as int;
    lemma_supported_sizes(stream.format);
    lemma_chunk_len(stream, index);
    lemma_multiples_differ_by_multiple(stream.samples.len() as int, stream.position, channels);
    lemma_multiple_of_multiple(index, budget, channels);
    lemma_multiples_differ_by_multiple(left, index * budget, channels);
    assert((index + 1) * budget == index * budget + budget) by (nonlinear_arith);
}

/// Indexed extraction on a stream read from its start: every segment but
/// the last holds a full window, and the last holds what is left over, or a
/// full window where nothing is left over. The last segment is the one
/// before the covering count; the planned count is no larger, so all
/// segments before the last planned one are full as well. Extraction
/// yields these segments wherever the window holds no more samples than one
/// container takes, and fails with `SerializationFailure` elsewhere.
pub proof fn lemma_extract_frame_counts(stream: StreamView, index: int)
    requires
        stream.valid(),
        stream.position == 0,
        0 <= index < covering_segments(stream.format, stream.total_frames()),
    ensures
        spec_extract(stream, index) == if spec_chunk(stream, index).len()
            <= MAX_CONTAINER_SAMPLES {
            Ok::<SegmentView, AudioError>(spec_segment(stream, index))
        } else {
            Err::<SegmentView, AudioError>(AudioError::SerializationFailure)
        },
        windows_fit(stream) ==> spec_extract(stream, index) == Ok::<SegmentView, AudioError>(
            spec_segment(stream, index),
        ),
        index < planned_segments(stream.format, stream.total_frames()) - 1 ==> spec_segment(
            stream,
            index,
        ).frame_count == stream.format.frame_budget(),
        index < covering_segments(stream.format, stream.total_frames()) - 1 ==> spec_segment(
            stream,
            index,
        ).frame_count == stream.format.frame_budget(),
        index == covering_segments(stream.format, stream.total_frames()) - 1 ==> spec_segment(
            stream,
            index,
        ).frame_count == if stream.total_frames() % stream.format.frame_budget() == 0 {
            stream.format.frame_budget()
        } else {
            stream.total_frames() % stream.format.frame_budget()
        },
{
    let budget = stream.format.frame_budget();
    let total = stream.total_frames();
    let covering = covering_segments(stream.format, total);
    lemma_supported_sizes(stream.format);
    lemma_planned_and_covering(stream.format, total);
    assert(stream.remaining() =~= stream.samples);
    lemma_window_starts_inside(total, budget, index);
    lemma_windows_hold_whole_frames(stream, index);
    lemma_chunk_len(stream, index);
    assert((index + 1) * budget == index * budget + budget) by (nonlinear_arith);
    if index < covering - 1 {
        lemma_window_starts_inside(total, budget, index + 1);
    } else {
        vstd::arithmetic::div_mod::lemma_fundamental_div_mod(total, budget);
        let whole = total / budget;
        assert(budget * whole == whole * budget) by (nonlinear_arith);
        assert((whole - 1 + 1) * budget == whole * budget);
        assert((whole - 1) * budget == whole * budget - budget) by (nonlinear_arith);
        assert(0 <= total % budget < budget) by (nonlinear_arith)
            requires
                0 < budget,
        ;
    }
}

/// Indexed extraction fails with `EmptyOrShort` wherever the window starts
/// at or past the end of what is left of the stream.
pub proof fn lemma_extract_past_the_end(stream: StreamView, index: int)
    requires
        stream.valid(),
        index * stream.format.frame_budget() >= stream.remaining().len(),
    ensures
        spec_extract(stream, index) == Err::<SegmentView, AudioError>(AudioError::EmptyOrShort),
{
}

/// The first `count` segments hold the first `count` windows: together as
/// many sample values as lie before the end of the last of them.
pub proof fn lemma_frames_in_segments(stream: StreamView, count: int)
    requires
        stream.valid(),
        0 <= count <= covering_segments(stream.format, stream.remaining().len() as int),
    ensures
        frames_in(spec_segments(stream, count)) == window_end(
            stream.remaining().len() as int,
            stream.format.frame_budget(),
            count - 1,
        ),
    decreases count,
{
    let budget = stream.format.frame_budget();
    let left = stream.remaining().len() as int;
    lemma_supported_sizes(stream.format);
    if count == 0 {
        assert((count - 1 + 1) * budget == 0) by (nonlinear_arith)
            requires
                count == 0,
        ;
    } else {
        lemma_frames_in_segments(stream, count - 1);
        assert(spec_segments(stream, count).drop_last() =~= spec_segments(stream, count - 1));
        lemma_window_starts_inside(left, budget, count - 1);
        lemma_chunk_len(stream, count - 1);
        assert((count - 1 - 1 + 1) * budget == (count - 1) * budget);
    }
}

/// On a stream read from its start, exhaustive extraction makes the
/// planned number of draws. It succeeds unless a window holds more samples
/// than one container takes, and then yields one segment for each draw.
/// Their frame counts add up to the length of the stream, unless the stream
/// runs on after its last planned window: then to the length of the planned
/// windows.
pub proof fn lemma_segments_of_fresh_stream(stream: StreamView)
    requires
        stream.valid(),
        stream.position == 0,
    ensures
        0 <= planned_segments(stream.format, stream.total_frames()),
        spec_emitted(stream) == planned_segments(stream.format, stream.total_frames()),
        spec_extract_all(stream) is Ok <==> planned_segments(stream.format, stream.total_frames())
            == 0 || windows_fit(stream),
        spec_extract_all(stream) matches Ok(segments) ==> segments == spec_segments(
            stream,
            planned_segments(stream.format, stream.total_frames()),
        ),
        spec_extract_all(stream) matches Err(e) ==> e == AudioError::SerializationFailure,
        frames_in(spec_segments(stream, planned_segments(stream.format, stream.total_frames())))
            == if stream.total_frames() <= planned_segments(stream.format, stream.total_frames())
            * stream.format.frame_budget() {
            stream.total_frames()
        } else {
            planned_segments(stream.format, stream.total_frames()) * stream.format.frame_budget()
        },
{
    let budget = stream.format.frame_budget();
    let total = stream.total_frames();
    let planned = planned_segments(stream.format, total);
    lemma_supported_sizes(stream.format);
    assert(stream.remaining() =~= stream.samples);
    lemma_planned_and_covering(stream.format, total);
    assert(spec_emitted(stream) == planned);
    if planned == 0 || windows_fit(stream) {
        assert forall|i: int| 0 <= i < planned implies (#[trigger] spec_extract(stream, i)) is Ok by {
            lemma_window_starts_inside(total, budget, i);
            lemma_chunk_len(stream, i);
            lemma_extract_frame_counts(stream, i);
        }
    } else {
        lemma_extract_frame_counts(stream, 0);
        assert(spec_extract(stream, 0) is Err);
    }
    lemma_frames_in_segments(stream, planned);
    assert((planned - 1 + 1) * budget == planned * budget);
}

/// The frame counts of all segments of a stream read from its start add up
/// to the length of the stream, provided the stream does not run on after
/// its last planned window and no window holds more samples than one
/// container takes.
pub proof fn lemma_segments_cover_stream(stream: StreamView)
    requires
        stream.valid(),
        stream.position == 0,
        stream.total_frames() <= planned_segments(stream.format, stream.total_frames())
            * stream.format.frame_budget(),
        windows_fit(stream),
    ensures
        spec_extract_all(stream) matches Ok(segments) && frames_in(segments)
            == stream.total_frames(),
{
    lemma_segments_of_fresh_stream(stream);
}

/// A stream that one container takes as a whole has no window that is too
/// long for one.
pub proof fn lemma_short_streams_fit(stream: StreamView)
    requires
        stream.valid(),
        stream.total_frames() <= MAX_CONTAINER_SAMPLES,
    ensures
        windows_fit(stream),
{
}

} // verus!
