//! Uploaded files: WAVE and MPEG audio, compression, credentials.

use std::io::Write;

use backend::error::AudioError;
use backend::samples::{
    get_all_samples, pcm_to_wav, prepare_decoded, prepare_upload, prepare_wav, stream_of, text_or,
    DecodedPcm, UploadError, UploadStep,
};
use rodio::Source;
use backend::stream::AudioStream;
use backend::{compress_data, CredentialError, PostedUser, COMPRESSION_LEVEL};

fn read_back(bytes: &[u8]) -> (hound::WavSpec, Vec<i16>) {
    let reader = hound::WavReader::new(std::io::Cursor::new(bytes)).unwrap();
    let spec = reader.spec();
    let samples = reader.into_samples::<i16>().map(|s| s.unwrap()).collect();
    (spec, samples)
}

/// Silent MPEG-1 Layer III frames: 128 kbit/s, 44,100 Hz, stereo.
fn silent_mpeg(frames: usize) -> Vec<u8> {
    let mut out = Vec::new();
    for _ in 0..frames {
        let mut frame = vec![0u8; 417];
        frame[0] = 0xff;
        frame[1] = 0xfb;
        frame[2] = 0x90;
        frame[3] = 0x00;
        out.extend_from_slice(&frame);
    }
    out
}

/// What the decoder makes of compressed audio, samples turned into 16 bits.
fn decoded(mpeg: Vec<u8>) -> DecodedPcm {
    let decoder = rodio::Decoder::new(std::io::Cursor::new(mpeg)).unwrap();
    DecodedPcm {
        sample_rate: decoder.sample_rate().get(),
        channels: decoder.channels().get(),
        samples: rodio::conversions::SampleTypeConverter::<_, i16>::new(decoder).collect(),
    }
}

fn user(username: &str, password: &str) -> PostedUser {
    PostedUser { username: username.to_string(), password: password.to_string() }
}

#[test]
fn mpeg_keeps_rate_and_channels() {
    let wav = pcm_to_wav(decoded(silent_mpeg(430))).unwrap();
    let (spec, samples) = read_back(&wav);
    assert_eq!(spec.sample_rate, 44_100);
    assert_eq!(spec.channels, 2);
    assert_eq!(spec.bits_per_sample, 16);
    assert_eq!(spec.sample_format, hound::SampleFormat::Int);
    // 430 frames of 1,152 samples for each of two channels
    assert_eq!(samples.len(), 990_720);
    assert!(samples.iter().all(|s| *s == 0));
    let stream = AudioStream::open(&wav).unwrap();
    assert_eq!(stream.total_frames(), samples.len() as u64);
    // a little over eleven seconds: one full preview, one short one
    let previews = get_all_samples(wav).unwrap();
    assert_eq!(previews.len(), 2);
    for preview in &previews {
        let (header, _) = read_back(preview);
        assert_eq!(header, spec);
    }
    assert_eq!(read_back(&previews[0]).1.len(), 882_000);
    assert_eq!(read_back(&previews[1]).1.len(), 108_720);
}

#[test]
fn mpeg_of_ten_seconds_and_a_bit_has_one_preview() {
    // 400 frames are 10.4 seconds: ten whole seconds, one segment
    let wav = pcm_to_wav(decoded(silent_mpeg(400))).unwrap();
    let previews = get_all_samples(wav).unwrap();
    assert_eq!(previews.len(), 1);
    assert_eq!(read_back(&previews[0]).1.len(), 882_000);
}

#[test]
fn mpeg_as_a_stream() {
    let stream = stream_of(decoded(silent_mpeg(50))).unwrap();
    assert_eq!(stream.format().sample_rate(), 44_100);
    assert_eq!(stream.format().channels(), 2);
    assert_eq!(stream.remaining_frames(), stream.total_frames());
    assert_eq!(stream.total_frames(), 115_200);
}

#[test]
fn decoded_pcm_becomes_a_container() {
    let decoded = DecodedPcm { sample_rate: 32_000, channels: 2, samples: vec![5, -5, 6, -6] };
    let wav = pcm_to_wav(decoded).unwrap();
    let (spec, samples) = read_back(&wav);
    assert_eq!(spec.sample_rate, 32_000);
    assert_eq!(spec.channels, 2);
    assert_eq!(samples, vec![5, -5, 6, -6]);
}

#[test]
fn decoded_pcm_must_be_supported() {
    let no_rate = DecodedPcm { sample_rate: 0, channels: 2, samples: vec![0, 0] };
    assert_eq!(pcm_to_wav(no_rate).err(), Some(AudioError::UnsupportedFormat));
    let half = DecodedPcm { sample_rate: 32_000, channels: 2, samples: vec![1, 2, 3] };
    assert_eq!(pcm_to_wav(half).err(), Some(AudioError::DecodeError));
    let half = DecodedPcm { sample_rate: 32_000, channels: 2, samples: vec![1, 2, 3] };
    assert_eq!(stream_of(half).err(), Some(AudioError::DecodeError));
    let whole = DecodedPcm { sample_rate: 32_000, channels: 2, samples: vec![1, 2, 3, 4] };
    let mut stream = stream_of(whole).unwrap();
    assert_eq!(stream.draw(4), vec![1, 2, 3, 4]);
}

fn wav_bytes(sample_rate: u32, channels: u16, samples: &[i16]) -> Vec<u8> {
    let spec = hound::WavSpec {
        channels,
        sample_rate,
        bits_per_sample: 16,
        sample_format: hound::SampleFormat::Int,
    };
    let mut buffer = std::io::Cursor::new(Vec::new());
    {
        let mut writer = hound::WavWriter::new(&mut buffer, spec).unwrap();
        for s in samples {
            writer.write_sample(*s).unwrap();
        }
        writer.finalize().unwrap();
    }
    buffer.into_inner()
}

#[test]
fn a_prepared_wave_file() {
    // stereo at 100 Hz: 200 values a second, 2,000 in a full preview
    let samples: Vec<i16> = (0..5_100).map(|i| (i % 1_000) as i16).collect();
    let song = prepare_wav(wav_bytes(100, 2, &samples)).unwrap();
    assert_eq!(song.duration, 25);
    assert_eq!(song.samples.len(), 3);
    assert_eq!(read_back(&song.samples[0]).1, samples[..2_000].to_vec());
    assert_eq!(read_back(&song.samples[1]).1, samples[2_000..4_000].to_vec());
    assert_eq!(read_back(&song.samples[2]).1, samples[4_000..].to_vec());
    for preview in &song.samples {
        let spec = read_back(preview).0;
        assert_eq!(spec.sample_rate, 100);
        assert_eq!(spec.channels, 2);
    }
    let same = prepare_upload(wav_bytes(100, 2, &samples)).unwrap();
    assert_eq!(same.duration, 25);
    assert_eq!(same.samples, song.samples);
    assert_eq!(get_all_samples(wav_bytes(100, 2, &samples)).unwrap(), song.samples);
}

#[test]
fn a_prepared_file_of_less_than_a_second() {
    let song = prepare_wav(wav_bytes(100, 2, &[1, 2, 3, 4])).unwrap();
    assert_eq!(song.duration, 0);
    assert_eq!(song.samples.len(), 0);
}

#[test]
fn prepared_pcm_keeps_rate_and_channels() {
    let samples: Vec<i16> = (0..3_300).map(|i| (i % 100) as i16 - 50).collect();
    let decoded = DecodedPcm { sample_rate: 50, channels: 3, samples: samples.clone() };
    let song = prepare_decoded(decoded).unwrap();
    assert_eq!(song.duration, 22);
    assert_eq!(song.samples.len(), 3);
    for preview in &song.samples {
        let spec = read_back(preview).0;
        assert_eq!(spec.sample_rate, 50);
        assert_eq!(spec.channels, 3);
        assert_eq!(spec.bits_per_sample, 16);
        assert_eq!(spec.sample_format, hound::SampleFormat::Int);
    }
    assert_eq!(read_back(&song.samples[2]).1, samples[3_000..].to_vec());
    let bad = DecodedPcm { sample_rate: 50, channels: 0, samples: Vec::new() };
    assert_eq!(prepare_decoded(bad).err(), Some(AudioError::UnsupportedFormat));
    let half = DecodedPcm { sample_rate: 50, channels: 3, samples: vec![0; 4] };
    assert_eq!(prepare_decoded(half).err(), Some(AudioError::DecodeError));
}

#[test]
fn a_prepared_mpeg_upload() {
    let song = prepare_decoded(decoded(silent_mpeg(430))).unwrap();
    assert_eq!(song.duration, 11);
    assert_eq!(song.samples.len(), 2);
    for preview in &song.samples {
        let spec = read_back(preview).0;
        assert_eq!(spec.sample_rate, 44_100);
        assert_eq!(spec.channels, 2);
    }
    // the same in two steps: a container first, then the upload of it
    let wav = pcm_to_wav(decoded(silent_mpeg(430))).unwrap();
    let again = prepare_upload(wav).unwrap();
    assert_eq!(again.duration, 11);
    assert_eq!(again.samples, song.samples);
    let mono: Vec<u8> = silent_mpeg(40).chunks(417).flat_map(|f| {
        let mut frame = f.to_vec();
        frame[3] = 0xc0;
        frame
    }).collect();
    let wav = pcm_to_wav(decoded(mono)).unwrap();
    assert_eq!(read_back(&wav).0.channels, 1);
}

fn refusal(step: UploadStep, cause: AudioError) -> Option<UploadError> {
    Some(UploadError { step, cause })
}

#[test]
fn uploads_that_cannot_be_prepared() {
    assert_eq!(
        prepare_upload(b"RIFF....WAVE".to_vec()).err(),
        refusal(UploadStep::Opening, AudioError::DecodeError)
    );
    assert_eq!(
        prepare_upload(Vec::new()).err(),
        refusal(UploadStep::Opening, AudioError::DecodeError)
    );
    // MPEG audio is no WAVE file
    assert_eq!(
        prepare_upload(silent_mpeg(20)).err(),
        refusal(UploadStep::Opening, AudioError::DecodeError)
    );
}

#[test]
fn uploads_whose_header_reads_fail_over_their_samples() {
    // the data chunk announces four samples and holds one
    let mut cut = wav_bytes(100, 1, &[1, 2, 3, 4]);
    cut.truncate(cut.len() - 6);
    assert_eq!(
        prepare_upload(cut.clone()).err(),
        refusal(UploadStep::Sampling, AudioError::DecodeError)
    );
    assert_eq!(prepare_wav(cut.clone()).err(), Some(AudioError::DecodeError));
    assert_eq!(get_all_samples(cut).err(), Some(AudioError::DecodeError));
    // eight bits a sample: the header reads, the format is not supported
    let mut eight = wav_bytes(100, 1, &[]);
    eight[32] = 1;
    eight[34] = 8;
    eight[28..32].copy_from_slice(&100u32.to_le_bytes());
    assert_eq!(
        prepare_upload(eight).err(),
        refusal(UploadStep::Sampling, AudioError::UnsupportedFormat)
    );
}

#[test]
fn a_very_high_rate_is_prepared() {
    // 250 MHz mono: the header fits, and so does the file
    let song = prepare_upload(wav_bytes(250_000_000, 1, &[1, 2, 3])).unwrap();
    assert_eq!(song.duration, 0);
    assert_eq!(song.samples.len(), 0);
    let mut stream = AudioStream::open(&wav_bytes(250_000_000, 1, &[1, 2, 3])).unwrap();
    assert_eq!(stream.format().sample_rate(), 250_000_000);
    assert_eq!(stream.draw(3), vec![1, 2, 3]);
}

#[test]
fn missing_texts_get_their_fallback() {
    assert_eq!(text_or(Some("Blue in Green".to_string()), "Unknown Title"), "Blue in Green");
    assert_eq!(text_or(None, "Unknown Title"), "Unknown Title");
    assert_eq!(text_or(Some(String::new()), "Unknown Artist"), "");
    assert_eq!(text_or(None, ""), "");
}

#[test]
fn previews_of_what_is_no_container() {
    assert_eq!(get_all_samples(b"RIFF".to_vec()).err(), Some(AudioError::DecodeError));
}

#[test]
fn compressed_data_inflates_to_the_input() {
    let data: Vec<u8> = (0..10_000u32).map(|i| (i % 7) as u8).collect();
    let packed = compress_data(data.clone());
    assert!(packed.len() < data.len());
    assert_ne!(packed, data);
    let mut decoder = flate2::write::ZlibDecoder::new(Vec::new());
    decoder.write_all(&packed).unwrap();
    assert_eq!(decoder.finish().unwrap(), data);
}

#[test]
fn compression_is_at_level_six() {
    assert_eq!(COMPRESSION_LEVEL, 6);
    let data: Vec<u8> = (0..50_000u32).map(|i| (i * i % 253) as u8).collect();
    let mut encoder = flate2::write::ZlibEncoder::new(Vec::new(), flate2::Compression::new(6));
    encoder.write_all(&data).unwrap();
    assert_eq!(compress_data(data), encoder.finish().unwrap());
    assert_eq!(compress_data(Vec::new()).len(), 8);
}

#[test]
fn signup_checks_the_name_first() {
    assert_eq!(user("ab", "short").check_signup(), Err(CredentialError::UsernameTooShort));
    assert_eq!(user("ab", "long enough").check_signup(), Err(CredentialError::UsernameTooShort));
    assert_eq!(user("abc", "1234567").check_signup(), Err(CredentialError::PasswordTooShort));
    assert_eq!(user("abc", "12345678").check_signup(), Ok(()));
    assert_eq!(user("", "").check_signup(), Err(CredentialError::UsernameTooShort));
}

#[test]
fn lengths_are_in_bytes() {
    // two letters, three bytes
    assert_eq!(user("\u{e9}a", "12345678").check_signup(), Ok(()));
    assert!(user("\u{e9}a", "12345678").can_log_in());
}

#[test]
fn login_needs_both_lengths() {
    assert!(user("abc", "12345678").can_log_in());
    assert!(!user("ab", "12345678").can_log_in());
    assert!(!user("abc", "1234567").can_log_in());
    assert!(!user("", "").can_log_in());
}

#[test]
fn credential_texts() {
    assert_eq!(
        CredentialError::UsernameTooShort.message(),
        "Username must be at least 3 characters long!"
    );
    assert_eq!(
        CredentialError::PasswordTooShort.message(),
        "Password must be at least 8 characters long!"
    );
}
