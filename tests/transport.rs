use audiomirror::{
    capture_into, encode, playback_from, receive_into, AudioFrame, DecodeError, ReceiveOutcome,
    SampleRing, SILENCE,
};

fn bits(v: &[f32]) -> Vec<u32> {
    v.iter().map(|x| x.to_bits()).collect()
}

#[test]
fn ring_keeps_push_order() {
    let mut ring = SampleRing::new(8);
    for s in 1u32..=5 {
        assert!(!ring.push(s));
    }
    assert_eq!(ring.len(), 5);
    for s in 1u32..=5 {
        assert_eq!(ring.pop(), Some(s));
    }
    assert_eq!(ring.pop(), None);
    assert!(ring.is_empty());
}

#[test]
fn ring_keeps_order_across_interleaving() {
    let mut ring = SampleRing::new(4);
    let mut popped = Vec::new();
    ring.push(10);
    ring.push(11);
    popped.push(ring.pop().unwrap());
    ring.push(12);
    popped.push(ring.pop().unwrap());
    popped.push(ring.pop().unwrap());
    assert_eq!(ring.pop(), None);
    ring.push(13);
    popped.push(ring.pop().unwrap());
    assert_eq!(popped, vec![10, 11, 12, 13]);
}

#[test]
fn ring_drops_oldest_when_full() {
    let mut ring = SampleRing::new(3);
    assert_eq!(ring.capacity(), 3);
    assert!(!ring.push(1));
    assert!(!ring.push(2));
    assert!(!ring.push(3));
    assert!(ring.push(4));
    assert_eq!(ring.len(), 3);
    assert_eq!(ring.pop(), Some(2));
    assert_eq!(ring.pop(), Some(3));
    assert_eq!(ring.pop(), Some(4));
}

#[test]
fn local_capture_and_playback_with_underrun() {
    let mut ring = SampleRing::new(16);
    capture_into(&mut ring, &bits(&[0.5, -0.3]), 1, 2);
    let mut out = vec![7u32; 6];
    let played = playback_from(&mut ring, &mut out);
    assert_eq!(played, 4);
    assert_eq!(out, bits(&[0.5, 0.0, -0.3, 0.0, 0.0, 0.0]));
    assert!(ring.is_empty());
}

#[test]
fn local_playback_leaves_the_rest_queued() {
    let mut ring = SampleRing::new(16);
    capture_into(&mut ring, &[1, 2, 3, 4, 5], 1, 1);
    let mut out = vec![0u32; 2];
    assert_eq!(playback_from(&mut ring, &mut out), 2);
    assert_eq!(out, vec![1, 2]);
    assert_eq!(ring.len(), 3);
    assert_eq!(ring.pop(), Some(3));
}

#[test]
fn receiver_plays_silence_without_data() {
    let mut out = vec![5u32; 4];
    assert_eq!(receive_into(None, 2, 48000, &mut out), ReceiveOutcome::NoData);
    assert_eq!(out, vec![SILENCE; 4]);
}

#[test]
fn receiver_plays_silence_on_malformed_payload() {
    let mut out = vec![5u32; 4];
    let r = receive_into(Some(&[1, 2, 3]), 2, 48000, &mut out);
    assert_eq!(r, ReceiveOutcome::Malformed(DecodeError::Malformed));
    assert_eq!(out, vec![SILENCE; 4]);
}

#[test]
fn receiver_discards_rate_mismatch() {
    let frame = AudioFrame { channels: 2, sample_rate: 44100, samples: bits(&[0.5, 0.9]) };
    let payload = encode(&frame);
    let mut out = vec![5u32; 4];
    let r = receive_into(Some(&payload), 2, 48000, &mut out);
    assert_eq!(r, ReceiveOutcome::RateMismatch { remote: 44100, local: 48000 });
    assert_eq!(out, vec![SILENCE; 4]);
}

#[test]
fn receiver_remaps_and_pads() {
    let frame = AudioFrame { channels: 2, sample_rate: 48000, samples: bits(&[0.5, 0.9, -0.3, 0.1]) };
    let payload = encode(&frame);
    let mut out = vec![5u32; 3];
    assert_eq!(receive_into(Some(&payload), 1, 48000, &mut out), ReceiveOutcome::Played);
    assert_eq!(out, bits(&[0.5, -0.3, 0.0]));
}

#[test]
fn receiver_truncates_to_output_length() {
    let frame = AudioFrame { channels: 1, sample_rate: 48000, samples: bits(&[0.5, -0.3]) };
    let payload = encode(&frame);
    let mut out = vec![5u32; 3];
    assert_eq!(receive_into(Some(&payload), 2, 48000, &mut out), ReceiveOutcome::Played);
    assert_eq!(out, bits(&[0.5, 0.0, -0.3]));
    let mut same = vec![5u32; 1];
    assert_eq!(receive_into(Some(&payload), 1, 48000, &mut same), ReceiveOutcome::Played);
    assert_eq!(same, bits(&[0.5]));
}
