use dectalk_tts::wav::{normalize_samples, normalize_wav_volume, read_wav_timing, WavError, WavTiming};
use std::io::Cursor;

fn chunk(tag: &[u8; 4], payload: &[u8]) -> Vec<u8> {
    let mut c = tag.to_vec();
    c.extend_from_slice(&(payload.len() as u32).to_le_bytes());
    c.extend_from_slice(payload);
    c
}

fn fmt_payload(format: u16, channels: u16, rate: u32, bits: u16) -> Vec<u8> {
    let align = channels * bits / 8;
    let mut f = Vec::new();
    f.extend_from_slice(&format.to_le_bytes());
    f.extend_from_slice(&channels.to_le_bytes());
    f.extend_from_slice(&rate.to_le_bytes());
    f.extend_from_slice(&(rate * align as u32).to_le_bytes());
    f.extend_from_slice(&align.to_le_bytes());
    f.extend_from_slice(&bits.to_le_bytes());
    f
}

fn wav(format: u16, extra: &[Vec<u8>], data: &[u8]) -> Vec<u8> {
    let mut body = b"WAVE".to_vec();
    body.extend(chunk(b"fmt ", &fmt_payload(format, 1, 44100, 16)));
    for c in extra {
        body.extend_from_slice(c);
    }
    body.extend(chunk(b"data", data));
    chunk(b"RIFF", &body)
}

fn seconds(t: WavTiming) -> f64 {
    t.data_size as f64 / t.block_align as f64 / t.sample_rate as f64
}

fn hound_wav(samples: &[i16]) -> Vec<u8> {
    let spec = hound::WavSpec {
        channels: 1,
        sample_rate: 8000,
        bits_per_sample: 16,
        sample_format: hound::SampleFormat::Int,
    };
    let mut buf = Vec::new();
    let mut w = hound::WavWriter::new(Cursor::new(&mut buf), spec).unwrap();
    for &s in samples {
        w.write_sample(s).unwrap();
    }
    w.finalize().unwrap();
    buf
}

fn hound_samples(bytes: &[u8]) -> (hound::WavSpec, Vec<i16>) {
    let mut r = hound::WavReader::new(Cursor::new(bytes)).unwrap();
    let spec = r.spec();
    let s = r.samples::<i16>().map(|s| s.unwrap()).collect();
    (spec, s)
}

#[test]
fn one_second_of_mono_cd_audio() {
    let bytes = wav(1, &[], &vec![0u8; 88200]);
    let t = read_wav_timing(&bytes).unwrap();
    assert_eq!(t, WavTiming { data_size: 88200, block_align: 2, sample_rate: 44100 });
    assert!((seconds(t) - 1.0).abs() < 1e-9);
    assert!(!t.longer_than(1));
    assert!(t.longer_than(0));
}

#[test]
fn unknown_chunk_is_skipped() {
    let plain = wav(1, &[], &vec![0u8; 88200]);
    let junk = wav(1, &[chunk(b"JUNK", &[7u8; 13]), chunk(b"LIST", b"abcd")], &vec![0u8; 88200]);
    assert_eq!(read_wav_timing(&junk), read_wav_timing(&plain));
    assert!((seconds(read_wav_timing(&junk).unwrap()) - 1.0).abs() < 1e-9);
}

#[test]
fn non_riff_is_malformed() {
    let mut bytes = wav(1, &[], &[0u8; 8]);
    bytes[0] = b'X';
    assert_eq!(read_wav_timing(&bytes), Err(WavError::MalformedContainer));
    let mut bytes = wav(1, &[], &[0u8; 8]);
    bytes[8..12].copy_from_slice(b"AVI ");
    assert_eq!(read_wav_timing(&bytes), Err(WavError::MalformedContainer));
}

#[test]
fn float_format_is_unsupported() {
    let bytes = wav(3, &[], &[0u8; 8]);
    assert_eq!(read_wav_timing(&bytes), Err(WavError::UnsupportedCodec));
}

#[test]
fn short_and_truncated_buffers_are_malformed() {
    assert_eq!(read_wav_timing(&[]), Err(WavError::MalformedContainer));
    assert_eq!(read_wav_timing(b"RIFF\0\0\0\0WAV"), Err(WavError::MalformedContainer));
    let full = wav(1, &[], &[0u8; 8]);
    assert_eq!(read_wav_timing(&full[..30]), Err(WavError::MalformedContainer));
    assert_eq!(read_wav_timing(&full[..40]), Err(WavError::MalformedContainer));
    assert!(read_wav_timing(&full[..44]).is_ok());
}

#[test]
fn missing_data_chunk_is_malformed() {
    let mut body = b"WAVE".to_vec();
    body.extend(chunk(b"fmt ", &fmt_payload(1, 1, 44100, 16)));
    body.extend(chunk(b"JUNK", &[1, 2, 3, 4]));
    let bytes = chunk(b"RIFF", &body);
    assert_eq!(read_wav_timing(&bytes), Err(WavError::MalformedContainer));
    let mut bytes = wav(1, &[chunk(b"JUNK", &[0u8; 4])], &[]);
    let at = 12 + 8 + 16 + 4;
    bytes[at..at + 4].copy_from_slice(&1000u32.to_le_bytes());
    assert_eq!(read_wav_timing(&bytes), Err(WavError::MalformedContainer));
}

#[test]
fn short_format_chunk_is_malformed() {
    let mut body = b"WAVE".to_vec();
    body.extend(chunk(b"fmt ", &[1, 0, 1, 0]));
    body.extend(chunk(b"data", &[0u8; 4]));
    assert_eq!(read_wav_timing(&chunk(b"RIFF", &body)), Err(WavError::MalformedContainer));
}

#[test]
fn stereo_timing() {
    let mut body = b"WAVE".to_vec();
    body.extend(chunk(b"fmt ", &fmt_payload(1, 2, 22050, 16)));
    body.extend(chunk(b"data", &vec![0u8; 22050 * 4 * 3]));
    let t = read_wav_timing(&chunk(b"RIFF", &body)).unwrap();
    assert_eq!(t, WavTiming { data_size: 264600, block_align: 4, sample_rate: 22050 });
    assert!(t.longer_than(2));
    assert!(!t.longer_than(3));
}

#[test]
fn samples_reach_both_bounds() {
    assert_eq!(normalize_samples(&[1000, -500, 0, 250, -125]), vec![32767, -32768, 0, 8191, -8192]);
    assert_eq!(normalize_samples(&[3, 1]), vec![32767, 10922]);
    assert_eq!(normalize_samples(&[-3, -1]), vec![-32768, -10922]);
    assert_eq!(normalize_samples(&[]), Vec::<i16>::new());
}

#[test]
fn silent_samples_stay_silent() {
    assert_eq!(normalize_samples(&[0, 0, 0]), vec![0, 0, 0]);
}

#[test]
fn full_range_samples_are_kept() {
    let s = [32767, -32768, 1, -1, 12345, -23456, 0];
    assert_eq!(normalize_samples(&s), s.to_vec());
}

#[test]
fn normalizes_a_wav_file() {
    let out = normalize_wav_volume(&hound_wav(&[1000, -500, 0, 250])).unwrap();
    let (spec, samples) = hound_samples(&out);
    assert_eq!(spec.sample_rate, 8000);
    assert_eq!(spec.channels, 1);
    assert_eq!(spec.bits_per_sample, 16);
    assert_eq!(samples, vec![32767, -32768, 0, 8191]);
}

#[test]
fn full_range_file_is_byte_identical() {
    let input = hound_wav(&[32767, -32768, 100, -100, 0]);
    assert_eq!(normalize_wav_volume(&input).unwrap(), input);
}

#[test]
fn silent_file_stays_playable() {
    let out = normalize_wav_volume(&hound_wav(&[0; 16])).unwrap();
    let (spec, samples) = hound_samples(&out);
    assert_eq!(spec.sample_rate, 8000);
    assert_eq!(samples, vec![0; 16]);
    assert!(read_wav_timing(&out).is_ok());
}

#[test]
fn normalizing_garbage_fails() {
    assert_eq!(normalize_wav_volume(b"not a wav file at all"), Err(WavError::MalformedContainer));
}

#[test]
fn normalizing_float_audio_fails() {
    let spec = hound::WavSpec {
        channels: 1,
        sample_rate: 8000,
        bits_per_sample: 32,
        sample_format: hound::SampleFormat::Float,
    };
    let mut buf = Vec::new();
    let mut w = hound::WavWriter::new(Cursor::new(&mut buf), spec).unwrap();
    w.write_sample(0.5f32).unwrap();
    w.finalize().unwrap();
    assert_eq!(normalize_wav_volume(&buf), Err(WavError::UnsupportedCodec));
}
