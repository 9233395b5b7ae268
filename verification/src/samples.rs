//! From an uploaded file to its previews.
//!
//! A WAVE upload is opened and cut into segments. Compressed audio is
//! decoded by the caller; the decoded PCM is written out here as a 16-bit
//! WAVE container, which then takes the same path.

use vstd::prelude::*;
use vstd::string::StringExecFns;
use crate::error::AudioError;
use crate::format::{supported, AudioFormat, FormatView};
use crate::plan::{duration_seconds, planned_segments, spec_duration_seconds, spec_segment_count};
use crate::segment::{
    extract_all, holds_window, lemma_segments_of_fresh_stream, lemma_short_streams_fit,
    segment_views, spec_extract_all, windows_fit, Segment, SegmentView,
};
use crate::stream::{read_container_header, spec_encode, spec_open, AudioStream, StreamView};
use crate::wav::{pcm16_header, wav_header_of};

verus! {

/// PCM as a decoder hands it over: what the compressed stream declares, and
/// its samples converted to 16 bits, channels interleaved.
#[derive(Debug)]
pub struct DecodedPcm {
    pub sample_rate: u32,
    pub channels: u16,
    pub samples: Vec<i16>,
}

/// The stream that decoded PCM makes up: none where the declared format is
/// not supported, or where the samples do not make up whole frames.
pub open spec fn spec_stream_of(sample_rate: u32, channels: u16, samples: Seq<i16>) -> Result<
    StreamView,
    AudioError,
> {
    if !supported(sample_rate as int, channels as int) {
        Err(AudioError::UnsupportedFormat)
    } else if samples.len() % (channels as nat) != 0 {
        Err(AudioError::DecodeError)
    } else {
        Ok(
            StreamView::fresh(
                FormatView { sample_rate: sample_rate as int, channels: channels as int },
                samples,
            ),
        )
    }
}

/// The container that decoded PCM is written to: the whole stream in one
/// container with the declared sample rate and channel count.
pub open spec fn spec_pcm_to_wav(sample_rate: u32, channels: u16, samples: Seq<i16>) -> Result<
    Seq<u8>,
    AudioError,
> {
    match spec_stream_of(sample_rate, channels, samples) {
        Err(e) => Err(e),
        Ok(stream) => spec_encode(stream.format, stream.samples),
    }
}

/// The previews of an uploaded WAVE file: the container bytes of all its
/// segments, in order.
pub open spec fn spec_get_all_samples(file: Seq<u8>) -> Result<Seq<Seq<u8>>, AudioError> {
    match spec_open(file) {
        Err(e) => Err(e),
        Ok(stream) => match spec_extract_all(stream) {
            Err(e) => Err(e),
            Ok(segments) => Ok(segments.map_values(|s: SegmentView| s.bytes)),
        },
    }
}

/// The views of a sequence of byte buffers.
pub open spec fn buffer_views(buffers: Seq<Vec<u8>>) -> Seq<Seq<u8>> {
    buffers.map_values(|b: Vec<u8>| b@)
}

/// A fresh stream over decoded PCM, with the format that the decoder
/// reported.
pub fn stream_of(decoded: DecodedPcm) -> (r: Result<AudioStream, AudioError>)
    ensures
        match r {
            Ok(stream) => spec_stream_of(decoded.sample_rate, decoded.channels, decoded.samples@)
                == Ok::<StreamView, AudioError>(stream@),
            Err(e) => spec_stream_of(decoded.sample_rate, decoded.channels, decoded.samples@)
                == Err::<StreamView, AudioError>(e),
        },
        r matches Ok(stream) ==> stream@.valid(),
{
    let format = match AudioFormat::new(decoded.sample_rate, decoded.channels) {
        Ok(format) => format,
        Err(e) => {
            return Err(e);
        },
    };
    AudioStream::from_samples(format, decoded.samples)
}

/// Writes decoded PCM into one 16-bit WAVE container whose header declares
/// the sample rate and channel count that the decoder reported. Opening the
/// container yields the stream of the decoded samples.
pub fn pcm_to_wav(decoded: DecodedPcm) -> (r: Result<Vec<u8>, AudioError>)
    ensures
        match r {
            Ok(wav) => spec_pcm_to_wav(decoded.sample_rate, decoded.channels, decoded.samples@)
                == Ok::<Seq<u8>, AudioError>(wav@),
            Err(e) => spec_pcm_to_wav(decoded.sample_rate, decoded.channels, decoded.samples@)
                == Err::<Seq<u8>, AudioError>(e),
        },
        r matches Ok(wav) ==> wav_header_of(wav@) == Some(
            pcm16_header(decoded.sample_rate, decoded.channels),
        ),
        r matches Ok(wav) ==> spec_open(wav@) == spec_stream_of(
            decoded.sample_rate,
            decoded.channels,
            decoded.samples@,
        ),
{
    let stream = match stream_of(decoded) {
        Ok(stream) => stream,
        Err(e) => {
            return Err(e);
        },
    };
    stream.to_wav()
}

/// Moves the container bytes out of the segments, keeping their order.
fn into_buffers(segments: Vec<Segment>) -> (buffers: Vec<Vec<u8>>)
    ensures
        buffers@.len() == segments@.len(),
        forall|i: int| 0 <= i < buffers@.len() ==> (#[trigger] buffers@[i])@ == segments@[i].bytes@,
{
    let ghost all = segments@;
    let mut segments = segments;
    let mut reversed: Vec<Vec<u8>> = Vec::new();
    while segments.len() > 0
        invariant
            segments@.len() + reversed@.len() == all.len(),
            segments@ == all.take(segments@.len() as int),
            forall|i: int|
                0 <= i < reversed@.len() ==> (#[trigger] reversed@[i])@ == all[all.len() - 1
                    - i].bytes@,
        decreases segments@.len(),
    {
        let segment = segments.pop().unwrap();
        reversed.push(segment.bytes);
    }
    let mut buffers: Vec<Vec<u8>> = Vec::new();
    while reversed.len() > 0
        invariant
            reversed@.len() + buffers@.len() == all.len(),
            forall|i: int|
                0 <= i < reversed@.len() ==> (#[trigger] reversed@[i])@ == all[all.len() - 1
                    - i].bytes@,
            forall|i: int| 0 <= i < buffers@.len() ==> (#[trigger] buffers@[i])@ == all[i].bytes@,
        decreases reversed@.len(),
    {
        let bytes = reversed.pop().unwrap();
        buffers.push(bytes);
    }
    buffers
}

/// What is kept of an uploaded song.
#[derive(Debug)]
pub struct PreparedSong {
    /// Duration in whole seconds.
    pub duration: u64,
    /// The container bytes of the previews, in order.
    pub samples: Vec<Vec<u8>>,
}

/// Whether `samples` are the previews of an uploaded WAVE file: the file
/// opens, there is one preview for every planned segment, each is a
/// container of its own that holds the window of its index, and each
/// carries the header of the file.
pub open spec fn previews_of(file: Seq<u8>, samples: Seq<Seq<u8>>) -> bool {
    &&& spec_open(file) matches Ok(stream)
    &&& spec_get_all_samples(file) == Ok::<Seq<Seq<u8>>, AudioError>(samples)
    &&& samples.len() == planned_segments(stream.format, stream.total_frames())
    &&& forall|i: int| 0 <= i < samples.len() ==> holds_window(stream, i, #[trigger] samples[i])
    &&& forall|i: int|
        0 <= i < samples.len() ==> wav_header_of(#[trigger] samples[i]) == wav_header_of(file)
}

/// Whether `duration` and `samples` are what an uploaded WAVE file yields:
/// the duration of its stream in whole seconds, and its previews, one for
/// every ten seconds begun.
pub open spec fn prepared_from(file: Seq<u8>, duration: int, samples: Seq<Seq<u8>>) -> bool {
    &&& previews_of(file, samples)
    &&& spec_open(file) matches Ok(stream)
    &&& duration == spec_duration_seconds(stream.format, stream.total_frames())
    &&& samples.len() == spec_segment_count(duration)
}

/// Whether the previews of a file can be made: the file opens, and none of
/// its planned windows holds more samples than one container takes.
pub open spec fn can_be_sampled(file: Seq<u8>) -> bool {
    spec_open(file) matches Ok(stream) && (planned_segments(stream.format, stream.total_frames())
        == 0 || windows_fit(stream))
}

/// Opens an uploaded WAVE file, measures its duration in whole seconds, and
/// cuts it into its previews: one for every ten seconds begun.
///
/// Fails where the file cannot be opened, with the error of opening it, and
/// with `SerializationFailure` where a planned window holds more samples
/// than one container takes; nowhere else. Every preview is a container of
/// its own with the header of the file.
pub fn prepare_wav(file: Vec<u8>) -> (r: Result<PreparedSong, AudioError>)
    ensures
        match r {
            Ok(song) => prepared_from(file@, song.duration as int, buffer_views(song.samples@)),
            Err(e) => spec_get_all_samples(file@) == Err::<Seq<Seq<u8>>, AudioError>(e),
        },
        r is Ok <==> can_be_sampled(file@),
        r matches Err(e) ==> spec_open(file@) == Err::<StreamView, AudioError>(e) || (spec_open(
            file@,
        ) is Ok && e == AudioError::SerializationFailure),
{
    let stream = match AudioStream::open(&file) {
        Ok(stream) => stream,
        Err(e) => {
            return Err(e);
        },
    };
    let ghost opened = stream@;
    proof {
        lemma_segments_of_fresh_stream(opened);
    }
    let format = stream.format();
    let duration = duration_seconds(&format, stream.total_frames());
    let segments = match extract_all(stream) {
        Ok(segments) => segments,
        Err(e) => {
            return Err(e);
        },
    };
    let ghost all = segments@;
    let samples = into_buffers(segments);
    proof {
        assert(spec_extract_all(opened) == Ok::<Seq<SegmentView>, AudioError>(segment_views(all)));
        assert(segment_views(all).len() == all.len());
        assert(buffer_views(samples@) =~= segment_views(all).map_values(|s: SegmentView| s.bytes));
        assert forall|i: int| 0 <= i < samples@.len() implies holds_window(
            opened,
            i,
            #[trigger] buffer_views(samples@)[i],
        ) by {
            assert(holds_window(opened, i, all[i].bytes@));
        }
    }
    Ok(PreparedSong { duration, samples })
}

/// Cuts an uploaded WAVE file into its previews: opens the file, plans the
/// number of segments from its duration in whole seconds, and returns the
/// container bytes of each segment in order.
///
/// Fails where the file cannot be opened, and where a planned window holds
/// more samples than one container takes; nowhere else. Every preview
/// carries the header of the file.
pub fn get_all_samples(file: Vec<u8>) -> (r: Result<Vec<Vec<u8>>, AudioError>)
    ensures
        match r {
            Ok(samples) => spec_get_all_samples(file@) == Ok::<Seq<Seq<u8>>, AudioError>(
                buffer_views(samples@),
            ),
            Err(e) => spec_get_all_samples(file@) == Err::<Seq<Seq<u8>>, AudioError>(e),
        },
        r is Ok <==> can_be_sampled(file@),
        r matches Err(e) ==> spec_open(file@) == Err::<StreamView, AudioError>(e) || (spec_open(
            file@,
        ) is Ok && e == AudioError::SerializationFailure),
        r matches Ok(samples) ==> previews_of(file@, buffer_views(samples@)),
{
    match prepare_wav(file) {
        Ok(song) => Ok(song.samples),
        Err(e) => Err(e),
    }
}

/// Writes decoded PCM into a container and prepares that container as an
/// uploaded WAVE file. The sample rate and the channel count that the
/// decoder reported stand in the header of every preview.
pub fn prepare_decoded(decoded: DecodedPcm) -> (r: Result<PreparedSong, AudioError>)
    ensures
        match r {
            Ok(song) => spec_pcm_to_wav(decoded.sample_rate, decoded.channels, decoded.samples@)
                matches Ok(wav) && prepared_from(
                wav,
                song.duration as int,
                buffer_views(song.samples@),
            ),
            Err(e) => spec_pcm_to_wav(decoded.sample_rate, decoded.channels, decoded.samples@)
                == Err::<Seq<u8>, AudioError>(e),
        },
        r matches Ok(song) ==> forall|i: int|
            0 <= i < song.samples@.len() ==> wav_header_of((#[trigger] song.samples@[i])@) == Some(
                pcm16_header(decoded.sample_rate, decoded.channels),
            ),
        r matches Ok(song) ==> song.duration as int == decoded.samples@.len() as int / (
        decoded.sample_rate * decoded.channels),
{
    let ghost sample_rate = decoded.sample_rate;
    let ghost channels = decoded.channels;
    let ghost pcm = decoded.samples@;
    let wav = match pcm_to_wav(decoded) {
        Ok(wav) => wav,
        Err(e) => {
            return Err(e);
        },
    };
    proof {
        // the whole stream went into one container, so each window fits one
        let stream = spec_stream_of(sample_rate, channels, pcm)->Ok_0;
        lemma_short_streams_fit(stream);
    }
    match prepare_wav(wav) {
        Ok(song) => {
            proof {
                assert forall|i: int| 0 <= i < song.samples@.len() implies wav_header_of(
                    (#[trigger] song.samples@[i])@,
                ) == Some(pcm16_header(sample_rate, channels)) by {
                    assert(buffer_views(song.samples@)[i] == song.samples@[i]@);
                }
            }
            Ok(song)
        },
        Err(e) => Err(e),
    }
}

/// The step at which an uploaded WAVE file was turned down.
#[derive(Clone, Copy, Debug, PartialEq, Eq, Structural)]
pub enum UploadStep {
    /// The file has no readable header.
    Opening,
    /// The header reads, but the previews could not be made.
    Sampling,
}

/// Why an upload was turned down, and at which step.
#[derive(Clone, Copy, Debug, PartialEq, Eq, Structural)]
pub struct UploadError {
    pub step: UploadStep,
    pub cause: AudioError,
}

/// Why an uploaded WAVE file is turned down, if it is: for want of a
/// readable header, or else for what keeps its previews from being made.
pub open spec fn spec_wav_refusal(file: Seq<u8>) -> Option<UploadError> {
    if wav_header_of(file) is None {
        Some(UploadError { step: UploadStep::Opening, cause: AudioError::DecodeError })
    } else {
        match spec_get_all_samples(file) {
            Ok(samples) => None,
            Err(cause) => Some(UploadError { step: UploadStep::Sampling, cause }),
        }
    }
}

/// Prepares an uploaded WAVE file: reads its header, then measures its
/// duration and cuts its previews as `prepare_wav` does. A file is turned
/// down at its header or over its previews, and the error says which.
pub fn prepare_upload(file: Vec<u8>) -> (r: Result<PreparedSong, UploadError>)
    ensures
        match r {
            Ok(song) => spec_wav_refusal(file@) is None && prepared_from(
                file@,
                song.duration as int,
                buffer_views(song.samples@),
            ),
            Err(e) => spec_wav_refusal(file@) == Some(e),
        },
{
    if read_container_header(&file).is_err() {
        return Err(UploadError { step: UploadStep::Opening, cause: AudioError::DecodeError });
    }
    match prepare_wav(file) {
        Ok(song) => Ok(song),
        Err(cause) => Err(UploadError { step: UploadStep::Sampling, cause }),
    }
}

/// The text of a form field, or the fallback where the field is missing.
pub fn text_or(value: Option<String>, fallback: &str) -> (text: String)
    ensures
        text@ == (match value {
            Some(v) => v@,
            None => fallback@,
        }),
{
    match value {
        Some(v) => v,
        None => String::from_str(fallback),
    }
}

/// Cutting the same bytes twice gives the same previews, byte for byte:
/// whatever two runs return for one file, they return the same.
pub proof fn lemma_resegmenting_is_deterministic(
    file: Seq<u8>,
    first: Result<Seq<Seq<u8>>, AudioError>,
    second: Result<Seq<Seq<u8>>, AudioError>,
)
    requires
        first == spec_get_all_samples(file),
        second == spec_get_all_samples(file),
    ensures
        first == second,
{
}

} // verus!
