//! The worked scenarios: mono audio at 44,100 Hz, fifteen and twenty
//! seconds long.

use backend::error::AudioError;
use backend::format::AudioFormat;
use backend::plan::{duration_seconds, segment_count, SegmentationPlan};
use backend::samples::get_all_samples;
use backend::segment::{extract, extract_all};
use backend::stream::AudioStream;

fn ramp(len: usize) -> Vec<i16> {
    (0..len).map(|i| (i % 30_000) as i16).collect()
}

fn wav_bytes(sample_rate: u32, channels: u16, samples: &[i16]) -> Vec<u8> {
    let spec = hound::WavSpec {
        channels,
        sample_rate,
        bits_per_sample: 16,
        sample_format: hound::SampleFormat::Int,
    };
    let mut buffer = std::io::Cursor::new(Vec::new());
    {
        let mut writer = hound::WavWriter::new(&mut buffer, spec).unwrap();
        for s in samples {
            writer.write_sample(*s).unwrap();
        }
        writer.finalize().unwrap();
    }
    buffer.into_inner()
}

fn read_back(bytes: &[u8]) -> (hound::WavSpec, Vec<i16>) {
    let reader = hound::WavReader::new(std::io::Cursor::new(bytes)).unwrap();
    let spec = reader.spec();
    let samples = reader.into_samples::<i16>().map(|s| s.unwrap()).collect();
    (spec, samples)
}

fn mono_stream(seconds_times_ten: usize) -> AudioStream {
    let format = AudioFormat::new(44_100, 1).unwrap();
    AudioStream::from_samples(format, ramp(4_410 * seconds_times_ten)).unwrap()
}

#[test]
fn fifteen_seconds_need_two_segments() {
    let format = AudioFormat::new(44_100, 1).unwrap();
    let seconds = duration_seconds(&format, 661_500);
    assert_eq!(seconds, 15);
    assert_eq!(segment_count(seconds), 2);
}

#[test]
fn fifteen_seconds_give_a_full_and_a_half_segment() {
    let segments = extract_all(mono_stream(150)).unwrap();
    assert_eq!(segments.len(), 2);
    assert_eq!(segments[0].index, 0);
    assert_eq!(segments[0].frame_count, 441_000);
    assert_eq!(segments[1].index, 1);
    assert_eq!(segments[1].frame_count, 220_500);
}

#[test]
fn fifteen_seconds_by_index() {
    assert_eq!(extract(mono_stream(150), 0).unwrap().frame_count, 441_000);
    assert_eq!(extract(mono_stream(150), 1).unwrap().frame_count, 220_500);
}

#[test]
fn twenty_seconds_give_two_full_segments() {
    let format = AudioFormat::new(44_100, 1).unwrap();
    let seconds = duration_seconds(&format, 882_000);
    assert_eq!(seconds, 20);
    assert_eq!(segment_count(seconds), 2);
    let segments = extract_all(mono_stream(200)).unwrap();
    assert_eq!(segments.len(), 2);
    assert_eq!(segments[0].frame_count, 441_000);
    assert_eq!(segments[1].frame_count, 441_000);
}

#[test]
fn twenty_seconds_have_no_third_segment() {
    assert_eq!(extract(mono_stream(200), 2).unwrap_err(), AudioError::EmptyOrShort);
}

#[test]
fn index_five_of_fifteen_seconds_is_empty() {
    assert_eq!(extract(mono_stream(150), 5).unwrap_err(), AudioError::EmptyOrShort);
}

#[test]
fn frame_counts_add_up_to_the_stream() {
    let segments = extract_all(mono_stream(150)).unwrap();
    let sum: u64 = segments.iter().map(|s| s.frame_count).sum();
    assert_eq!(sum, 661_500);
}

#[test]
fn a_trailing_half_second_is_not_planned() {
    // 20.5 seconds: the duration in whole seconds is 20, so two segments
    // are planned and the last half second stays behind.
    let segments = extract_all(mono_stream(205)).unwrap();
    assert_eq!(segments.len(), 2);
    let sum: u64 = segments.iter().map(|s| s.frame_count).sum();
    assert_eq!(sum, 882_000);
    // Indexed extraction still reaches it.
    assert_eq!(extract(mono_stream(205), 2).unwrap().frame_count, 22_050);
    let plan = SegmentationPlan::new(&AudioFormat::new(44_100, 1).unwrap(), 904_050);
    assert_eq!(plan.segment_count, 3);
    assert_eq!(plan.planned_count, 2);
    assert_eq!(plan.duration_seconds, 20);
}

#[test]
fn previews_of_a_fifteen_second_file() {
    let samples = ramp(661_500);
    let previews = get_all_samples(wav_bytes(44_100, 1, &samples)).unwrap();
    assert_eq!(previews.len(), 2);
    let (spec0, first) = read_back(&previews[0]);
    let (spec1, second) = read_back(&previews[1]);
    assert_eq!(spec0.sample_rate, 44_100);
    assert_eq!(spec0.channels, 1);
    assert_eq!(spec0.bits_per_sample, 16);
    assert_eq!(spec0.sample_format, hound::SampleFormat::Int);
    assert_eq!(spec1, spec0);
    assert_eq!(first.len(), 441_000);
    assert_eq!(second.len(), 220_500);
    assert_eq!(first[..], samples[..441_000]);
    assert_eq!(second[..], samples[441_000..]);
}

#[test]
fn resegmenting_gives_the_same_bytes() {
    let file = wav_bytes(44_100, 1, &ramp(661_500));
    let once = get_all_samples(file.clone()).unwrap();
    let twice = get_all_samples(file).unwrap();
    assert_eq!(once, twice);
}
