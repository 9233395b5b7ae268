//! The format shared by all samples of one stream.

use vstd::prelude::*;
use crate::error::AudioError;

verus! {

/// Length of one full segment, in seconds.
pub const SEGMENT_SECONDS: u64 = 10;

/// Width of every sample, in bits.
pub const BITS_PER_SAMPLE: u16 = 16;

/// Bytes that one sample takes in a container.
pub const BYTES_PER_SAMPLE: u64 = 2;

/// The largest number of bytes in one second of audio that the 32-bit field
/// of the container header can declare.
pub const MAX_BYTE_RATE: u64 = 4294967295;

/// The largest number of samples that one container can hold: the length
/// fields of a container are 32 bits wide and count bytes, header included.
pub const MAX_CONTAINER_SAMPLES: u64 = 2147483617;

/// The largest channel count whose block size (two bytes per channel) fits
/// the 16-bit field of the container header.
pub const MAX_CHANNELS: u16 = 32767;

/// Whether the header of a container can declare a sample rate and a
/// channel count for 16-bit samples: both are positive, and the block size
/// and the byte rate fit their fields.
pub open spec fn supported(sample_rate: int, channels: int) -> bool {
    &&& 1 <= sample_rate
    &&& 1 <= channels <= MAX_CHANNELS
    &&& sample_rate * channels * BYTES_PER_SAMPLE <= MAX_BYTE_RATE
}

/// A 32-bit rate times a 16-bit channel count stays far below 2^64.
proof fn lemma_product_fits(sample_rate: u32, channels: u16)
    ensures
        0 <= sample_rate * channels <= 0xffff_ffff * 0xffff,
        1 <= sample_rate && 1 <= channels ==> 1 <= sample_rate * channels,
{
    assert(0 <= sample_rate * channels <= 0xffff_ffff * 0xffff) by (nonlinear_arith)
        requires
            0 <= sample_rate <= 0xffff_ffff,
            0 <= channels <= 0xffff,
    ;
    assert(1 <= sample_rate && 1 <= channels ==> 1 <= sample_rate * channels) by (nonlinear_arith);
}

/// Sample rate and channel count as mathematical integers.
pub struct FormatView {
    pub sample_rate: int,
    pub channels: int,
}

impl FormatView {
    /// Samples in one second of audio, all channels together.
    pub open spec fn samples_per_second(self) -> int {
        self.sample_rate * self.channels
    }

    /// Samples in one full segment, all channels together.
    pub open spec fn frame_budget(self) -> int {
        self.sample_rate * self.channels * SEGMENT_SECONDS
    }

    pub open spec fn valid(self) -> bool {
        supported(self.sample_rate, self.channels)
    }
}

/// Sizes that follow from a supported format: a second and a full segment
/// are not empty, their sizes are bounded, and a full segment holds whole
/// frames.
pub proof fn lemma_supported_sizes(format: FormatView)
    requires
        format.valid(),
    ensures
        1 <= format.samples_per_second() <= 2147483647,
        format.frame_budget() == format.samples_per_second() * 10,
        10 <= format.frame_budget() <= 21474836470,
        format.frame_budget() % format.channels == 0,
{
    let rate = format.sample_rate;
    let channels = format.channels;
    assert(1 <= rate * channels) by (nonlinear_arith)
        requires
            1 <= rate,
            1 <= channels,
    ;
    assert(rate * channels * 10 == (rate * 10) * channels) by (nonlinear_arith);
    assert(((rate * 10) * channels) % channels == 0) by (nonlinear_arith)
        requires
            1 <= channels,
    ;
}

/// Sample rate in Hz and channel count of a stream of 16-bit signed
/// integer samples. Every value of this type is supported.
#[derive(Clone, Copy, Debug, PartialEq, Eq)]
pub struct AudioFormat {
    sample_rate: u32,
    channels: u16,
}

impl View for AudioFormat {
    type V = FormatView;

    closed spec fn view(&self) -> FormatView {
        FormatView { sample_rate: self.sample_rate as int, channels: self.channels as int }
    }
}

impl AudioFormat {
    #[verifier::type_invariant]
    spec fn well_formed(self) -> bool {
        supported(self.sample_rate as int, self.channels as int)
    }

    /// Builds a format, or reports `UnsupportedFormat` where the pair is
    /// not supported.
    pub fn new(sample_rate: u32, channels: u16) -> (r: Result<AudioFormat, AudioError>)
        ensures
            supported(sample_rate as int, channels as int) ==> (r matches Ok(f)
                && f@.sample_rate == sample_rate && f@.channels == channels),
            !supported(sample_rate as int, channels as int) ==> r == Err::<AudioFormat, AudioError>(
                AudioError::UnsupportedFormat,
            ),
    {
        if sample_rate == 0 || channels == 0 || channels > MAX_CHANNELS {
            return Err(AudioError::UnsupportedFormat);
        }
        proof {
            lemma_product_fits(sample_rate, channels);
        }
        let byte_rate: u64 = (sample_rate as u64) * (channels as u64) * BYTES_PER_SAMPLE;
        if byte_rate > MAX_BYTE_RATE {
            return Err(AudioError::UnsupportedFormat);
        }
        Ok(AudioFormat { sample_rate, channels })
    }

    /// Samples per second and channel.
    pub fn sample_rate(&self) -> (r: u32)
        ensures
            r == self@.sample_rate,
            self@.valid(),
    {
        proof {
            use_type_invariant(self);
        }
        self.sample_rate
    }

    /// Number of interleaved channels.
    pub fn channels(&self) -> (r: u16)
        ensures
            r == self@.channels,
            self@.valid(),
    {
        proof {
            use_type_invariant(self);
        }
        self.channels
    }

    /// Samples in one second of audio, all channels together.
    pub fn samples_per_second(&self) -> (r: u64)
        ensures
            r == self@.samples_per_second(),
            1 <= r <= 2147483647,
            self@.valid(),
    {
        proof {
            use_type_invariant(self);
            lemma_product_fits(self.sample_rate, self.channels);
        }
        (self.sample_rate as u64) * (self.channels as u64)
    }

    /// Samples in one full segment, all channels together.
    pub fn frame_budget(&self) -> (r: u64)
        ensures
            r == self@.frame_budget(),
            10 <= r <= 21474836470,
            self@.valid(),
    {
        let per_second = self.samples_per_second();
        proof {
            lemma_supported_sizes(self@);
        }
        per_second * SEGMENT_SECONDS
    }
}

} // verus!
