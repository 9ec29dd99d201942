use yap_to_text::resample::resample;
use yap_to_text::wav::{DecodedWav, SampleData, decode_wav, encode_wav};

#[test]
fn resample_length_is_floor_of_the_rate_ratio() {
    let s: Vec<i16> = vec![0; 1000];
    assert_eq!(resample(&s, 8000, 16000).len(), 2000);
    assert_eq!(resample(&s, 16000, 8000).len(), 500);
    assert_eq!(resample(&s, 44100, 16000).len(), 1000 * 16000 / 44100);
    assert_eq!(resample(&s, 48000, 16000).len(), 333);
}

#[test]
fn resample_round_trip_preserves_length_within_rounding() {
    for len in [1usize, 7, 100, 999] {
        let s: Vec<i16> = vec![0; len];
        let there = resample(&s, 44100, 16000);
        let back = resample(&there, 16000, 44100);
        assert!(back.len() <= len);
        assert!(len < back.len() + 44100 / 16000 + 2);
    }
}

#[test]
fn resample_interpolates_linearly() {
    let s: Vec<i16> = vec![0, 1000];
    assert_eq!(resample(&s, 8000, 16000), vec![0, 500, 1000, 1000]);
    let s: Vec<i16> = vec![0, 100, 200, 300];
    assert_eq!(resample(&s, 16000, 8000), vec![0, 200]);
}

#[test]
fn resample_at_equal_rates_is_identity() {
    let s: Vec<i16> = vec![5, -7, 32767, -32768];
    assert_eq!(resample(&s, 16000, 16000), s);
}

#[test]
fn resample_of_empty_input_is_empty() {
    let s: Vec<i16> = Vec::new();
    assert_eq!(resample(&s, 8000, 16000), Vec::<i16>::new());
}

#[test]
fn encode_produces_the_canonical_header() {
    let s: Vec<i16> = vec![0, 1, -1];
    let b = encode_wav(&s);
    assert_eq!(b.len(), 44 + 6);
    assert_eq!(&b[0..4], &b"RIFF"[..]);
    assert_eq!(&b[8..12], &b"WAVE"[..]);
    assert_eq!(&b[12..16], &b"fmt "[..]);
    assert_eq!(&b[36..40], &b"data"[..]);
    // mono, format 1, 16000 Hz, 16 bits
    assert_eq!(u16::from_le_bytes([b[20], b[21]]), 1);
    assert_eq!(u16::from_le_bytes([b[22], b[23]]), 1);
    assert_eq!(u32::from_le_bytes([b[24], b[25], b[26], b[27]]), 16000);
    assert_eq!(u16::from_le_bytes([b[34], b[35]]), 16);
    assert_eq!(u32::from_le_bytes([b[40], b[41], b[42], b[43]]), 6);
}

#[test]
fn encode_then_decode_recovers_the_samples_exactly() {
    let s: Vec<i16> = vec![0, 1234, -1234, 32767, -32768, 7];
    let b = encode_wav(&s);
    let d: DecodedWav = decode_wav(&b).expect("own encoding must decode");
    assert_eq!(d.channels, 1);
    assert_eq!(d.sample_rate, 16000);
    assert_eq!(d.bits_per_sample, 16);
    match d.data {
        SampleData::Int(v) => {
            assert_eq!(v, s.iter().map(|&x| x as i32).collect::<Vec<i32>>());
        },
        SampleData::Float(_) => panic!("the canonical container holds integer samples"),
    }
}

#[test]
fn hound_reads_our_encoding() {
    let s: Vec<i16> = vec![100, -200, 300, -32768, 32767];
    let b = encode_wav(&s);
    let mut reader = hound::WavReader::new(std::io::Cursor::new(b)).expect("hound must accept it");
    let spec = reader.spec();
    assert_eq!(spec.channels, 1);
    assert_eq!(spec.sample_rate, 16000);
    assert_eq!(spec.bits_per_sample, 16);
    assert_eq!(spec.sample_format, hound::SampleFormat::Int);
    let got: Vec<i16> = reader.samples::<i16>().map(|r| r.unwrap()).collect();
    assert_eq!(got, s);
}

#[test]
fn we_read_hounds_int_encoding() {
    let spec = hound::WavSpec {
        channels: 2,
        sample_rate: 44100,
        bits_per_sample: 16,
        sample_format: hound::SampleFormat::Int,
    };
    let mut cursor = std::io::Cursor::new(Vec::new());
    {
        let mut writer = hound::WavWriter::new(&mut cursor, spec).unwrap();
        for x in [1i16, -2, 3, -4] {
            writer.write_sample(x).unwrap();
        }
        writer.finalize().unwrap();
    }
    let bytes = cursor.into_inner();
    let d = decode_wav(&bytes).expect("hound output must decode");
    assert_eq!(d.channels, 2);
    assert_eq!(d.sample_rate, 44100);
    assert_eq!(d.bits_per_sample, 16);
    match d.data {
        SampleData::Int(v) => assert_eq!(v, vec![1, -2, 3, -4]),
        SampleData::Float(_) => panic!("expected integer samples"),
    }
}

#[test]
fn we_read_hounds_float_encoding() {
    let spec = hound::WavSpec {
        channels: 1,
        sample_rate: 16000,
        bits_per_sample: 32,
        sample_format: hound::SampleFormat::Float,
    };
    let samples = [0.0f32, 0.5, -0.25];
    let mut cursor = std::io::Cursor::new(Vec::new());
    {
        let mut writer = hound::WavWriter::new(&mut cursor, spec).unwrap();
        for &x in &samples {
            writer.write_sample(x).unwrap();
        }
        writer.finalize().unwrap();
    }
    let bytes = cursor.into_inner();
    let d = decode_wav(&bytes).expect("hound float output must decode");
    assert_eq!(d.bits_per_sample, 32);
    match d.data {
        SampleData::Float(words) => {
            let got: Vec<f32> = words.iter().map(|&w| f32::from_bits(w)).collect();
            assert_eq!(got, samples.to_vec());
        },
        SampleData::Int(_) => panic!("expected floating-point samples"),
    }
}

#[test]
fn we_read_hounds_extensible_24_bit_encoding() {
    let spec = hound::WavSpec {
        channels: 1,
        sample_rate: 16000,
        bits_per_sample: 24,
        sample_format: hound::SampleFormat::Int,
    };
    let mut cursor = std::io::Cursor::new(Vec::new());
    {
        let mut writer = hound::WavWriter::new(&mut cursor, spec).unwrap();
        for x in [0i32, 8388607, -8388608, 42] {
            writer.write_sample(x).unwrap();
        }
        writer.finalize().unwrap();
    }
    let bytes = cursor.into_inner();
    let d = decode_wav(&bytes).expect("hound 24-bit output must decode");
    assert_eq!(d.bits_per_sample, 24);
    match d.data {
        SampleData::Int(v) => assert_eq!(v, vec![0, 8388607, -8388608, 42]),
        SampleData::Float(_) => panic!("expected integer samples"),
    }
}

#[test]
fn quantized_float_samples_survive_the_round_trip_within_a_step() {
    let samples = [0.0f32, 0.5, -0.5, 0.25, 1.0, -1.0, 0.123];
    let quantized: Vec<i16> = samples
        .iter()
        .map(|&s| (s * 32767.0).round().clamp(-32768.0, 32767.0) as i16)
        .collect();
    let b = encode_wav(&quantized);
    let d = decode_wav(&b).unwrap();
    match d.data {
        SampleData::Int(v) => {
            for (i, &orig) in samples.iter().enumerate() {
                let recovered = v[i] as f64 / 32768.0;
                assert!((recovered - orig as f64).abs() <= 1.0 / 32768.0 + 1e-9);
            }
        },
        SampleData::Float(_) => panic!("expected integer samples"),
    }
}

#[test]
fn malformed_containers_are_rejected() {
    assert!(decode_wav(&Vec::<u8>::new()).is_err());
    assert!(decode_wav(&vec![0u8; 11]).is_err());
    let mut not_riff = encode_wav(&vec![1i16, 2, 3]);
    not_riff[0] = b'X';
    assert!(decode_wav(&not_riff).is_err());
    let mut truncated = encode_wav(&vec![1i16; 100]);
    truncated.truncate(100);
    assert!(decode_wav(&truncated).is_err());
    let mut bad_bits = encode_wav(&vec![1i16, 2]);
    bad_bits[34] = 12;
    assert!(decode_wav(&bad_bits).is_err());
}
