//! Decoded PCM streams: a format, the interleaved samples, and a cursor that
//! only moves forward.

use vstd::prelude::*;
use crate::error::AudioError;
use crate::format::{supported, AudioFormat, FormatView, BITS_PER_SAMPLE, MAX_CONTAINER_SAMPLES};
use crate::wav::{
    pcm16_header, read_header, read_samples, wav_encoded, wav_header_of, wav_samples_of,
    write_container, ContainerHeader,
};

verus! {

/// A stream as a mathematical value.
pub struct StreamView {
    pub format: FormatView,
    /// All sample values of the stream, channels interleaved.
    pub samples: Seq<i16>,
    /// How many sample values have been consumed.
    pub position: int,
}

impl StreamView {
    /// The format is supported, the samples make up whole frames, and the
    /// cursor lies within the stream.
    pub open spec fn valid(self) -> bool {
        &&& self.format.valid()
        &&& self.samples.len() % (self.format.channels as nat) == 0
        &&& 0 <= self.position <= self.samples.len()
    }

    /// Number of sample values in the stream, consumed or not.
    pub open spec fn total_frames(self) -> int {
        self.samples.len() as int
    }

    /// The sample values that have not been consumed yet.
    pub open spec fn remaining(self) -> Seq<i16> {
        self.samples.skip(self.position)
    }

    /// The same stream with the cursor moved forward by `count`.
    pub open spec fn advanced(self, count: int) -> StreamView {
        StreamView { position: self.position + count, ..self }
    }

    /// A stream that has just been opened on the given samples.
    pub open spec fn fresh(format: FormatView, samples: Seq<i16>) -> StreamView {
        StreamView { format, samples, position: 0 }
    }
}

/// What opening a container yields, over the header and the samples that
/// the container reader finds in the bytes.
pub open spec fn spec_open(bytes: Seq<u8>) -> Result<StreamView, AudioError> {
    match wav_header_of(bytes) {
        None => Err(AudioError::DecodeError),
        Some(header) => {
            if !header.integer_samples || header.bits_per_sample != BITS_PER_SAMPLE {
                Err(AudioError::UnsupportedFormat)
            } else if !supported(header.sample_rate as int, header.channels as int) {
                Err(AudioError::UnsupportedFormat)
            } else {
                match wav_samples_of(bytes) {
                    None => Err(AudioError::DecodeError),
                    Some(samples) => {
                        if samples.len() % (header.channels as nat) != 0 {
                            Err(AudioError::DecodeError)
                        } else {
                            Ok(
                                StreamView::fresh(
                                    FormatView {
                                        sample_rate: header.sample_rate as int,
                                        channels: header.channels as int,
                                    },
                                    samples,
                                ),
                            )
                        }
                    },
                }
            }
        },
    }
}

/// Reads the header of a WAVE container without decoding its samples.
/// Fails with `DecodeError` where the bytes hold no readable header.
pub fn read_container_header(bytes: &Vec<u8>) -> (r: Result<ContainerHeader, AudioError>)
    ensures
        match r {
            Ok(header) => wav_header_of(bytes@) == Some(header),
            Err(e) => e == AudioError::DecodeError && wav_header_of(bytes@) is None,
        },
{
    match read_header(bytes) {
        Ok(header) => Ok(header),
        Err(_) => Err(AudioError::DecodeError),
    }
}

/// What writing samples into one container yields: the container bytes,
/// unless there are too many samples for one container or they do not make
/// up whole frames.
pub open spec fn spec_encode(format: FormatView, samples: Seq<i16>) -> Result<Seq<u8>, AudioError> {
    if samples.len() > MAX_CONTAINER_SAMPLES || samples.len() % (format.channels as nat) != 0 {
        Err(AudioError::SerializationFailure)
    } else {
        Ok(wav_encoded(format.sample_rate as u32, format.channels as u16, samples))
    }
}

/// Writes the samples into a container of their own, with a complete header
/// for the given format. Opening the container again yields a fresh stream
/// of the same format and samples.
pub fn encode_pcm(format: &AudioFormat, samples: &Vec<i16>) -> (r: Result<Vec<u8>, AudioError>)
    ensures
        match r {
            Ok(bytes) => spec_encode(format@, samples@) == Ok::<Seq<u8>, AudioError>(bytes@),
            Err(e) => spec_encode(format@, samples@) == Err::<Seq<u8>, AudioError>(e),
        },
        r matches Ok(bytes) ==> spec_open(bytes@) == Ok::<StreamView, AudioError>(
            StreamView::fresh(format@, samples@),
        ),
{
    let sample_rate = format.sample_rate();
    let channels = format.channels();
    if samples.len() as u64 > MAX_CONTAINER_SAMPLES || samples.len() % (channels as usize) != 0 {
        return Err(AudioError::SerializationFailure);
    }
    match write_container(sample_rate, channels, BITS_PER_SAMPLE, samples) {
        Ok(bytes) => {
            assert(wav_header_of(bytes@) == Some(pcm16_header(sample_rate, channels)));
            Ok(bytes)
        },
        Err(_) => Err(AudioError::SerializationFailure),
    }
}

/// A decoded PCM stream of 16-bit samples, read once from front to back.
/// Reading it again takes opening the source again: a stream cannot be
/// rewound or copied.
#[derive(Debug)]
pub struct AudioStream {
    format: AudioFormat,
    samples: Vec<i16>,
    position: usize,
}

impl View for AudioStream {
    type V = StreamView;

    closed spec fn view(&self) -> StreamView {
        StreamView { format: self.format@, samples: self.samples@, position: self.position as int }
    }
}

impl AudioStream {
    #[verifier::type_invariant]
    spec fn well_formed(self) -> bool {
        self@.valid()
    }

    /// Opens a WAVE container: reads its header, checks that the declared
    /// format is supported, and decodes its samples.
    pub fn open(bytes: &Vec<u8>) -> (r: Result<AudioStream, AudioError>)
        ensures
            match r {
                Ok(stream) => spec_open(bytes@) == Ok::<StreamView, AudioError>(stream@),
                Err(e) => spec_open(bytes@) == Err::<StreamView, AudioError>(e),
            },
            r matches Ok(stream) ==> stream@.valid(),
    {
        let header = match read_container_header(bytes) {
            Ok(header) => header,
            Err(e) => {
                return Err(e);
            },
        };
        if !header.integer_samples || header.bits_per_sample != BITS_PER_SAMPLE {
            return Err(AudioError::UnsupportedFormat);
        }
        let format = match AudioFormat::new(header.sample_rate, header.channels) {
            Ok(format) => format,
            Err(e) => {
                return Err(e);
            },
        };
        let samples = match read_samples(bytes) {
            Ok(samples) => samples,
            Err(_) => {
                return Err(AudioError::DecodeError);
            },
        };
        AudioStream::from_samples(format, samples)
    }

    /// A fresh stream over samples that are already decoded. Fails with
    /// `DecodeError` where the samples do not make up whole frames.
    pub fn from_samples(format: AudioFormat, samples: Vec<i16>) -> (r: Result<
        AudioStream,
        AudioError,
    >)
        ensures
            samples@.len() % (format@.channels as nat) == 0 ==> (r matches Ok(stream) && stream@
                == StreamView::fresh(format@, samples@) && stream@.valid()),
            samples@.len() % (format@.channels as nat) != 0 ==> r matches Err(
                AudioError::DecodeError,
            ),
    {
        let channels = format.channels();
        if samples.len() % (channels as usize) != 0 {
            return Err(AudioError::DecodeError);
        }
        Ok(AudioStream { format, samples, position: 0 })
    }

    /// The format shared by all samples of the stream.
    pub fn format(&self) -> (format: AudioFormat)
        ensures
            format@ == self@.format,
            self@.valid(),
    {
        proof {
            use_type_invariant(self);
        }
        self.format
    }

    /// Number of sample values in the stream, consumed or not.
    pub fn total_frames(&self) -> (count: u64)
        ensures
            count == self@.total_frames(),
            self@.valid(),
    {
        proof {
            use_type_invariant(self);
        }
        self.samples.len() as u64
    }

    /// Number of sample values that have not been consumed yet.
    pub fn remaining_frames(&self) -> (count: u64)
        ensures
            count == self@.remaining().len(),
            self@.valid(),
    {
        proof {
            use_type_invariant(self);
        }
        (self.samples.len() - self.position) as u64
    }

    /// The next sample value, if any is left.
    pub fn next_sample(&mut self) -> (sample: Option<i16>)
        ensures
            old(self)@.remaining().len() == 0 ==> sample is None && final(self)@ == old(self)@,
            old(self)@.remaining().len() > 0 ==> sample == Some(old(self)@.remaining()[0])
                && final(self)@ == old(self)@.advanced(1),
            final(self)@.valid(),
    {
        proof {
            use_type_invariant(&*self);
        }
        if self.position < self.samples.len() {
            let sample = self.samples[self.position];
            self.position = self.position + 1;
            Some(sample)
        } else {
            None
        }
    }

    /// Moves the cursor forward by `count` sample values, or to the end of
    /// the stream where fewer are left. Returns how many were passed over.
    pub fn skip(&mut self, count: u64) -> (skipped: u64)
        ensures
            skipped == if count <= old(self)@.remaining().len() {
                count as int
            } else {
                old(self)@.remaining().len() as int
            },
            final(self)@ == old(self)@.advanced(skipped as int),
            final(self)@.valid(),
    {
        proof {
            use_type_invariant(&*self);
        }
        let left = (self.samples.len() - self.position) as u64;
        let skipped = if count <= left {
            count
        } else {
            left
        };
        self.position = self.position + skipped as usize;
        skipped
    }

    /// Takes up to `limit` sample values from the cursor on, in order, and
    /// moves the cursor past them.
    pub fn draw(&mut self, limit: u64) -> (drawn: Vec<i16>)
        ensures
            drawn@.len() == if limit <= old(self)@.remaining().len() {
                limit as int
            } else {
                old(self)@.remaining().len() as int
            },
            drawn@ == old(self)@.remaining().take(drawn@.len() as int),
            final(self)@ == old(self)@.advanced(drawn@.len() as int),
            final(self)@.valid(),
    {
        proof {
            use_type_invariant(&*self);
        }
        let start = self.position;
        let left = (self.samples.len() - self.position) as u64;
        let count = if limit <= left {
            limit as usize
        } else {
            left as usize
        };
        let mut drawn: Vec<i16> = Vec::new();
        let mut taken: usize = 0;
        while taken < count
            invariant
                taken <= count,
                start + count <= self.samples.len(),
                drawn@.len() == taken,
                forall|k: int| 0 <= k < taken ==> drawn@[k] == self.samples@[start + k],
            decreases count - taken,
        {
            drawn.push(self.samples[start + taken]);
            taken = taken + 1;
        }
        self.position = start + count;
        proof {
            assert(drawn@ =~= old(self)@.remaining().take(count as int));
        }
        drawn
    }

    /// Writes the whole stream, consumed part included, into one container.
    pub fn to_wav(&self) -> (r: Result<Vec<u8>, AudioError>)
        ensures
            match r {
                Ok(bytes) => spec_encode(self@.format, self@.samples) == Ok::<
                    Seq<u8>,
                    AudioError,
                >(bytes@),
                Err(e) => spec_encode(self@.format, self@.samples) == Err::<Seq<u8>, AudioError>(e),
            },
            r matches Ok(bytes) ==> spec_open(bytes@) == Ok::<StreamView, AudioError>(
                StreamView::fresh(self@.format, self@.samples),
            ),
            r is Ok <==> self@.total_frames() <= MAX_CONTAINER_SAMPLES,
    {
        proof {
            use_type_invariant(self);
        }
        encode_pcm(&self.format, &self.samples)
    }
}

} // verus!
