//! Reading and writing WAVE containers.
//!
//! The container format itself is handled by the `hound` crate. Nothing in
//! this module is proved: each function states what the rest of the library
//! relies on, and each of those statements is an assumption about `hound`.

use vstd::prelude::*;
use crate::format::{BITS_PER_SAMPLE, MAX_CHANNELS, MAX_CONTAINER_SAMPLES};

verus! {

/// The error type of `hound`, carried through without being inspected.
#[verifier::external_type_specification]
#[verifier::external_body]
pub struct ExHoundError(hound::Error);

/// What the `fmt` chunk of a container declares.
#[derive(Clone, Copy, Debug, PartialEq, Eq, Structural)]
pub struct ContainerHeader {
    /// Samples per second and channel.
    pub sample_rate: u32,
    /// Number of interleaved channels.
    pub channels: u16,
    /// Bits of one sample.
    pub bits_per_sample: u16,
    /// Whether samples are integers; floating point otherwise.
    pub integer_samples: bool,
}

/// The header that `hound::WavReader::new` finds in `bytes`, as reported by
/// `WavReader::spec`; `None` where it rejects the bytes.
pub uninterp spec fn wav_header_of(bytes: Seq<u8>) -> Option<ContainerHeader>;

/// The samples that `hound::WavReader::into_samples::<i16>` yields for
/// `bytes`, in order; `None` where the header or any one sample cannot be read.
pub uninterp spec fn wav_samples_of(bytes: Seq<u8>) -> Option<Seq<i16>>;

/// The bytes that `hound::WavWriter` produces for 16-bit integer samples
/// with the given sample rate and channel count.
pub uninterp spec fn wav_encoded(sample_rate: u32, channels: u16, samples: Seq<i16>) -> Seq<u8>;

/// The header of a 16-bit integer container.
pub open spec fn pcm16_header(sample_rate: u32, channels: u16) -> ContainerHeader {
    ContainerHeader { sample_rate, channels, bits_per_sample: BITS_PER_SAMPLE, integer_samples: true }
}

/// Calls `hound::WavReader::new` on the bytes and returns what
/// `WavReader::spec` reports. Assumed: the outcome depends on the bytes
/// alone, so it can be named `wav_header_of`.
#[verifier::external_body]
pub(crate) fn read_header(bytes: &Vec<u8>) -> (r: Result<ContainerHeader, hound::Error>)
    ensures
        r matches Ok(header) ==> wav_header_of(bytes@) == Some(header),
        r is Err ==> wav_header_of(bytes@) is None,
{
    let spec = hound::WavReader::new(std::io::Cursor::new(bytes.as_slice()))?.spec();
    Ok(ContainerHeader {
        sample_rate: spec.sample_rate,
        channels: spec.channels,
        bits_per_sample: spec.bits_per_sample,
        integer_samples: match spec.sample_format {
            hound::SampleFormat::Int => true,
            hound::SampleFormat::Float => false,
        },
    })
}

/// Calls `hound::WavReader::new` on the bytes and collects what
/// `WavReader::into_samples::<i16>` yields, stopping at the first sample
/// that cannot be read. Assumed: the outcome depends on the bytes alone, so
/// it can be named `wav_samples_of`.
#[verifier::external_body]
pub(crate) fn read_samples(bytes: &Vec<u8>) -> (r: Result<Vec<i16>, hound::Error>)
    ensures
        r matches Ok(samples) ==> wav_samples_of(bytes@) == Some(samples@),
        r is Err ==> wav_samples_of(bytes@) is None,
{
    hound::WavReader::new(std::io::Cursor::new(bytes.as_slice()))?.into_samples::<i16>().collect()
}

/// Writes the samples into a fresh in-memory container with
/// `hound::WavWriter::new`, `write_sample` for each sample in turn, and
/// `finalize`. The writer borrows its buffer and `finalize` consumes the
/// writer, so the three calls stand in one function.
///
/// The preconditions keep `hound` away from its arithmetic on 32-bit and
/// 16-bit header fields overflowing and from dividing by a zero rate or
/// channel count. Assumed of `hound`:
/// - writing succeeds exactly when the samples make up whole frames
///   (`finalize` reports an unfinished frame otherwise; writing into memory
///   does not fail);
/// - the bytes depend on the arguments alone, so they can be named
///   `wav_encoded`;
/// - its reader accepts what its writer wrote, and finds the same header
///   fields and the same samples in it.
#[verifier::external_body]
pub(crate) fn write_container(
    sample_rate: u32,
    channels: u16,
    bits_per_sample: u16,
    samples: &Vec<i16>,
) -> (r: Result<Vec<u8>, hound::Error>)
    requires
        1 <= sample_rate,
        1 <= channels <= MAX_CHANNELS,
        sample_rate * channels * 2 <= u32::MAX,
        bits_per_sample == BITS_PER_SAMPLE,
        samples.len() <= MAX_CONTAINER_SAMPLES,
    ensures
        r is Ok <==> (samples@.len() as int) % (channels as int) == 0,
        r matches Ok(out) ==> out@ == wav_encoded(sample_rate, channels, samples@),
        r matches Ok(out) ==> wav_header_of(out@) == Some(pcm16_header(sample_rate, channels)),
        r matches Ok(out) ==> wav_samples_of(out@) == Some(samples@),
{
    let spec = hound::WavSpec {
        channels,
        sample_rate,
        bits_per_sample,
        sample_format: hound::SampleFormat::Int,
    };
    let mut buffer = std::io::Cursor::new(Vec::new());
    let mut writer = hound::WavWriter::new(&mut buffer, spec)?;
    for sample in samples.iter() {
        writer.write_sample(*sample)?;
    }
    writer.finalize()?;
    Ok(buffer.into_inner())
}

} // verus!
