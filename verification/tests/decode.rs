use wavplay::wav::{load, DecodeError, FormatField};

/// Builds a canonical 44-byte header with the given field values, followed
/// by `data`.
fn wav_bytes(
    audio_format: u16,
    num_channels: u16,
    sample_rate: u32,
    byte_rate: u32,
    bits_per_sample: u16,
    data_size: u32,
    data: &[u8],
) -> Vec<u8> {
    let mut b = vec![0u8; 44];
    b[0..4].copy_from_slice(b"RIFF");
    b[8..12].copy_from_slice(b"WAVE");
    b[12..16].copy_from_slice(b"fmt ");
    b[20..22].copy_from_slice(&audio_format.to_le_bytes());
    b[22..24].copy_from_slice(&num_channels.to_le_bytes());
    b[24..28].copy_from_slice(&sample_rate.to_le_bytes());
    b[28..32].copy_from_slice(&byte_rate.to_le_bytes());
    b[34..36].copy_from_slice(&bits_per_sample.to_le_bytes());
    b[36..40].copy_from_slice(b"data");
    b[40..44].copy_from_slice(&data_size.to_le_bytes());
    b.extend_from_slice(data);
    b
}

fn pcm(samples: &[i16]) -> Vec<u8> {
    let mut out = Vec::new();
    for s in samples {
        out.extend_from_slice(&s.to_le_bytes());
    }
    out
}

#[test]
fn header_fields_match_bytes() {
    let data = pcm(&[1, 2, 3, 4]);
    let bytes = wav_bytes(1, 2, 44100, 176400, 16, 8, &data);
    let a = load(&bytes).ok().unwrap();
    assert_eq!(a.audio_format, 1);
    assert_eq!(a.num_channels, 2);
    assert_eq!(a.sample_rate, 44100);
    assert_eq!(a.byte_rate, 176400);
    assert_eq!(a.bits_per_sample, 16);
    assert_eq!(a.data_size, 8);
}

#[test]
fn sample_count_is_half_data_size() {
    let data = pcm(&[5, -5, 7]);
    let bytes = wav_bytes(1, 1, 8000, 16000, 16, 6, &data);
    let a = load(&bytes).ok().unwrap();
    assert_eq!(a.samples, vec![5, -5, 7]);
}

#[test]
fn odd_trailing_byte_is_dropped() {
    let mut data = pcm(&[100, -200]);
    data.push(0xAB);
    let bytes = wav_bytes(1, 1, 8000, 16000, 16, 5, &data);
    let a = load(&bytes).ok().unwrap();
    assert_eq!(a.samples, vec![100, -200]);
}

#[test]
fn full_scale_sample_values() {
    // 0x7FFF, 0x8000 and 0 as raw little-endian byte pairs.
    let data = vec![0xFF, 0x7F, 0x00, 0x80, 0x00, 0x00];
    let bytes = wav_bytes(1, 1, 8000, 16000, 16, 6, &data);
    let a = load(&bytes).ok().unwrap();
    assert_eq!(a.samples, vec![32767, -32768, 0]);
    // Normalized by the positive full-scale magnitude, as the output edge
    // does: 0x7FFF maps to exactly 1.0, 0x8000 to -32768/32767.
    let top = a.samples[0] as f64 / 32767.0;
    assert_eq!(top, 1.0);
    let bottom = a.samples[1] as f64 / 32767.0;
    assert!((bottom.abs() - 32768.0 / 32767.0).abs() < 1e-12);
    for s in &a.samples {
        let v = *s as f64 / 32767.0;
        assert!(v.abs() <= 32768.0 / 32767.0);
    }
}

#[test]
fn zero_length_data_is_ok_and_empty() {
    let bytes = wav_bytes(1, 1, 8000, 16000, 16, 0, &[]);
    let a = load(&bytes).ok().unwrap();
    assert!(a.samples.is_empty());
    assert_eq!(a.data_size, 0);
}

#[test]
fn source_shorter_than_header_is_io_error() {
    let bytes = vec![0u8; 10];
    assert!(matches!(load(&bytes), Err(DecodeError::Io)));
    let bytes = vec![0u8; 43];
    assert!(matches!(load(&bytes), Err(DecodeError::Io)));
    let bytes: Vec<u8> = Vec::new();
    assert!(matches!(load(&bytes), Err(DecodeError::Io)));
}

#[test]
fn truncated_data_reports_partial_samples() {
    // Declares 8 payload bytes but carries only 4.
    let data = pcm(&[11, -22]);
    let bytes = wav_bytes(1, 1, 8000, 16000, 16, 8, &data);
    match load(&bytes) {
        Err(DecodeError::Truncated { partial }) => {
            assert_eq!(partial.samples, vec![11, -22]);
            assert_eq!(partial.data_size, 8);
            assert_eq!(partial.num_channels, 1);
        }
        _ => panic!("expected a truncation report"),
    }
}

#[test]
fn partial_trailing_frame_is_dropped() {
    // Two channels, three byte pairs: one complete frame plus half a frame.
    let data = pcm(&[7, -8, 9]);
    let bytes = wav_bytes(1, 2, 8000, 32000, 16, 6, &data);
    let a = load(&bytes).ok().unwrap();
    assert_eq!(a.samples, vec![7, -8]);
    assert_eq!(a.samples.len() % a.num_channels as usize, 0);
}

#[test]
fn truncation_keeps_only_complete_frames() {
    // Two channels, eight bytes declared, one byte pair present: the lone
    // sample is half a frame and is dropped from the partial result.
    let data = pcm(&[42]);
    let bytes = wav_bytes(1, 2, 8000, 32000, 16, 8, &data);
    match load(&bytes) {
        Err(DecodeError::Truncated { partial }) => {
            assert!(partial.samples.is_empty());
            assert_eq!(partial.data_size, 8);
        }
        _ => panic!("expected a truncation report"),
    }
}

#[test]
fn trailing_bytes_after_payload_are_ignored() {
    // Four payload bytes, then four bytes of trailing metadata.
    let mut data = pcm(&[9, 10]);
    data.extend_from_slice(b"LIST");
    let bytes = wav_bytes(1, 1, 8000, 16000, 16, 4, &data);
    let a = load(&bytes).ok().unwrap();
    assert_eq!(a.samples, vec![9, 10]);
}

#[test]
fn non_pcm_format_is_unsupported() {
    let bytes = wav_bytes(3, 1, 8000, 16000, 16, 0, &[]);
    match load(&bytes) {
        Err(DecodeError::UnsupportedFormat { field, value }) => {
            assert!(matches!(field, FormatField::AudioFormat));
            assert_eq!(value, 3);
        }
        _ => panic!("expected an unsupported-format error"),
    }
}

#[test]
fn non_16_bit_depth_is_unsupported() {
    let bytes = wav_bytes(1, 1, 8000, 8000, 8, 0, &[]);
    match load(&bytes) {
        Err(DecodeError::UnsupportedFormat { field, value }) => {
            assert!(matches!(field, FormatField::BitsPerSample));
            assert_eq!(value, 8);
        }
        _ => panic!("expected an unsupported-format error"),
    }
}

#[test]
fn zero_channels_is_unsupported() {
    let bytes = wav_bytes(1, 0, 8000, 16000, 16, 0, &[]);
    match load(&bytes) {
        Err(DecodeError::UnsupportedFormat { field, value }) => {
            assert!(matches!(field, FormatField::NumChannels));
            assert_eq!(value, 0);
        }
        _ => panic!("expected an unsupported-format error"),
    }
}

#[test]
fn zero_sample_rate_is_unsupported() {
    let bytes = wav_bytes(1, 1, 0, 0, 16, 0, &[]);
    match load(&bytes) {
        Err(DecodeError::UnsupportedFormat { field, value }) => {
            assert!(matches!(field, FormatField::SampleRate));
            assert_eq!(value, 0);
        }
        _ => panic!("expected an unsupported-format error"),
    }
}

#[test]
fn sine_wave_second_round_trips() {
    // One second of a 440 Hz sine at 8000 Hz mono: 8000 samples, 16000 bytes.
    let n = 8000usize;
    let mut expected = Vec::with_capacity(n);
    let mut data = Vec::with_capacity(2 * n);
    for i in 0..n {
        let x = (2.0 * std::f64::consts::PI * 440.0 * i as f64 / 8000.0).sin();
        let s = (x * 32767.0).round() as i16;
        expected.push(x);
        data.extend_from_slice(&s.to_le_bytes());
    }
    let bytes = wav_bytes(1, 1, 8000, 16000, 16, 16000, &data);
    let a = load(&bytes).ok().unwrap();
    assert_eq!(a.samples.len(), 8000);
    for i in 0..n {
        let v = a.samples[i] as f64 / 32767.0;
        assert!((v - expected[i]).abs() < 1e-4);
    }
}
