use audiomirror::{decode, encode, remap, sender_payload, AudioFrame, DecodeError, SILENCE};

fn bits(v: &[f32]) -> Vec<u32> {
    v.iter().map(|x| x.to_bits()).collect()
}

#[test]
fn remap_equal_counts_is_identity() {
    let input = bits(&[0.1, 0.2, 0.3, 0.4, 0.5]);
    assert_eq!(remap(&input, 2, 2), input);
    assert_eq!(remap(&[], 3, 3), Vec::<u32>::new());
}

#[test]
fn remap_upmix_pads_with_silence() {
    let input = bits(&[0.5, -0.3]);
    assert_eq!(remap(&input, 1, 2), bits(&[0.5, 0.0, -0.3, 0.0]));
}

#[test]
fn remap_downmix_truncates() {
    let input = bits(&[0.5, 0.9, -0.3, 0.1]);
    assert_eq!(remap(&input, 2, 1), bits(&[0.5, -0.3]));
}

#[test]
fn remap_partial_group_is_completed_with_silence() {
    let input = bits(&[0.5, 0.9, 0.7, -0.3]);
    assert_eq!(remap(&input, 3, 4), bits(&[0.5, 0.9, 0.7, 0.0, -0.3, 0.0, 0.0, 0.0]));
    assert_eq!(remap(&input, 3, 2), bits(&[0.5, 0.9, -0.3, 0.0]));
    assert_eq!(remap(&[], 2, 1), Vec::<u32>::new());
}

#[test]
fn silence_is_zero_float() {
    assert_eq!(SILENCE, 0.0f32.to_bits());
}

#[test]
fn encode_writes_little_endian_fields() {
    let frame = AudioFrame { channels: 2, sample_rate: 48000, samples: bits(&[1.0, -1.0]) };
    let b = encode(&frame);
    let mut expected = vec![2u8, 0, 0x80, 0xBB, 0, 0, 2, 0, 0, 0, 0, 0, 0, 0];
    expected.extend_from_slice(&1.0f32.to_le_bytes());
    expected.extend_from_slice(&(-1.0f32).to_le_bytes());
    assert_eq!(b, expected);
}

#[test]
fn codec_round_trip() {
    let samples = bits(&[0.25, -0.5, 0.75, 1.0, -1.0, 0.0]);
    for channels in [1u16, 2, 3, 6] {
        let frame = AudioFrame { channels, sample_rate: 44100, samples: samples.clone() };
        let back = decode(&encode(&frame)).unwrap();
        assert_eq!(back.channels, channels);
        assert_eq!(back.sample_rate, 44100);
        assert_eq!(back.samples, samples);
    }
    let empty = AudioFrame { channels: 1, sample_rate: 8000, samples: vec![] };
    let back = decode(&encode(&empty)).unwrap();
    assert_eq!(back.sample_rate, 8000);
    assert!(back.samples.is_empty());
}

#[test]
fn decode_rejects_short_payloads() {
    assert_eq!(decode(&[]).err(), Some(DecodeError::Malformed));
    assert_eq!(decode(&[1, 0, 0x80, 0xBB, 0, 0, 1, 0, 0]).err(), Some(DecodeError::Malformed));
    let mut b = encode(&AudioFrame { channels: 1, sample_rate: 48000, samples: bits(&[0.5, 0.5]) });
    b.pop();
    assert_eq!(decode(&b).err(), Some(DecodeError::Malformed));
}

#[test]
fn decode_rejects_zero_channels() {
    let b = encode(&AudioFrame { channels: 0, sample_rate: 48000, samples: vec![] });
    assert_eq!(decode(&b).err(), Some(DecodeError::NoChannels));
}

#[test]
fn decode_ignores_trailing_bytes() {
    let mut b = encode(&AudioFrame { channels: 1, sample_rate: 48000, samples: bits(&[0.5]) });
    b.extend_from_slice(&[9, 9, 9]);
    let f = decode(&b).unwrap();
    assert_eq!(f.samples, bits(&[0.5]));
}

#[test]
fn sender_payload_tags_samples_with_device() {
    let data = bits(&[0.1, 0.2]);
    let p = sender_payload(2, 44100, &data);
    let f = decode(&p).unwrap();
    assert_eq!((f.channels, f.sample_rate), (2, 44100));
    assert_eq!(f.samples, data);
    assert_eq!(p.len(), 14 + 8);
}
