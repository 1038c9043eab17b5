use vstd::prelude::*;
use crate::codec::{AudioFrame, DecodeError, decode, decode_result, encode, header_len, wire_bytes};
use crate::remap::{remapped, group_count, lemma_group_count, lemma_group_index, copy_samples, SILENCE};

verus! {

/// The role of this host in network mode.
#[derive(Debug, Clone, Copy, PartialEq, Eq, Structural)]
pub enum StreamType {
    /// Receives frames and plays them on the local device.
    Client,
    /// Captures the local device and sends its frames.
    Server,
}

/// What one playback callback of the receiver did.
#[derive(Debug, Clone, Copy, PartialEq, Eq, Structural)]
pub enum ReceiveOutcome {
    /// No datagram was waiting: the output is silence.
    NoData,
    /// The datagram could not be decoded: the output is silence.
    Malformed(DecodeError),
    /// The frame's sample rate is not the local one: the frame is discarded
    /// and the output is silence.
    RateMismatch { remote: u32, local: u32 },
    /// The frame was remapped to the local channel count and played.
    Played,
}

/// Sample `k` of an output buffer filled from `s`, remapped from `cin` to
/// `cout` channels: the remapped samples, then silence.
pub open spec fn fill_at(s: Seq<u32>, cin: nat, cout: nat, k: int) -> u32 {
    let r = remapped(s, cin, cout);
    if k < r.len() {
        r[k]
    } else {
        SILENCE
    }
}

/// The sample at position `k` of the remapped buffer, or silence past its end.
fn fill_sample(s: &Vec<u32>, cin: u16, cout: u16, k: usize) -> (v: u32)
    requires
        cin >= 1,
        cout >= 1,
    ensures
        v == fill_at(s@, cin as nat, cout as nat, k as int),
{
    let len = s.len();
    if cin == cout {
        if k < len {
            s[k]
        } else {
            SILENCE
        }
    } else {
        let ci: usize = cin as usize;
        let co: usize = cout as usize;
        let g: usize = k / co;
        let j: usize = k % co;
        let groups: usize = if len % ci > 0 {
            proof {
                assert(len > 0 && ci > 1) by (nonlinear_arith)
                    requires len as int % ci as int > 0, ci > 0;
                vstd::arithmetic::div_mod::lemma_div_decreases(len as int, ci as int);
            }
            len / ci + 1
        } else {
            len / ci
        };
        proof {
            assert(groups == group_count(len as nat, ci as nat)) by {
                vstd::arithmetic::div_mod::lemma_fundamental_div_mod(len as int, ci as int);
                let q = len as int / ci as int;
                let m = len as int % ci as int;
                if m > 0 {
                    lemma_group_index(q + 1, m - 1, ci as int);
                    assert(len + ci - 1 == (q + 1) * ci + (m - 1)) by (nonlinear_arith)
                        requires len == ci * q + m;
                } else {
                    lemma_group_index(q, ci - 1, ci as int);
                    assert(len + ci - 1 == q * ci + (ci - 1)) by (nonlinear_arith)
                        requires len == ci * q + m, m == 0;
                }
            }
            lemma_group_count(len as int, ci as int, g as int);
            vstd::arithmetic::div_mod::lemma_fundamental_div_mod(k as int, co as int);
            let r = remapped(s@, ci as nat, co as nat);
            if g < groups {
                assert(k < r.len()) by (nonlinear_arith)
                    requires k == co * g + j, j < co, g + 1 <= groups, r.len() == groups * co;
            } else {
                assert(k >= r.len()) by (nonlinear_arith)
                    requires k == co * g + j, j >= 0, g >= groups, r.len() == groups * co, co > 0;
            }
        }
        if j < ci && g < groups {
            let base: usize = g * ci;
            if j < len - base {
                s[base + j]
            } else {
                SILENCE
            }
        } else {
            SILENCE
        }
    }
}

/// What the receiver plays from a decoded frame of `cin` channels at the local
/// rate: the remapped samples, cut or padded with silence to `out`'s length.
pub fn play_frame(samples: &Vec<u32>, cin: u16, cout: u16, out: &mut Vec<u32>)
    requires
        cin >= 1,
        cout >= 1,
    ensures
        final(out)@.len() == old(out)@.len(),
        forall|k: int|
            0 <= k < final(out)@.len() ==> #[trigger] final(out)@[k] == fill_at(
                samples@,
                cin as nat,
                cout as nat,
                k,
            ),
{
    let mut i: usize = 0;
    while i < out.len()
        invariant
            cin >= 1,
            cout >= 1,
            out@.len() == old(out)@.len(),
            i <= out@.len(),
            forall|k: int|
                0 <= k < i ==> #[trigger] out@[k] == fill_at(samples@, cin as nat, cout as nat, k),
        decreases out.len() - i,
    {
        let v = fill_sample(samples, cin, cout, i);
        out.set(i, v);
        i = i + 1;
    }
}

/// Fills `out` with silence.
pub fn fill_silence(out: &mut Vec<u32>)
    ensures
        final(out)@.len() == old(out)@.len(),
        forall|k: int| 0 <= k < final(out)@.len() ==> #[trigger] final(out)@[k] == SILENCE,
{
    let mut i: usize = 0;
    while i < out.len()
        invariant
            out@.len() == old(out)@.len(),
            i <= out@.len(),
            forall|k: int| 0 <= k < i ==> #[trigger] out@[k] == SILENCE,
        decreases out.len() - i,
    {
        out.set(i, SILENCE);
        i = i + 1;
    }
}

/// The outcome of a receiver callback for the payload `payload` (`None` when
/// no datagram was waiting) on a local device running at `local_rate`.
pub open spec fn receive_outcome(payload: Option<Seq<u8>>, local_rate: u32) -> ReceiveOutcome {
    match payload {
        None => ReceiveOutcome::NoData,
        Some(b) => match decode_result(b) {
            Err(e) => ReceiveOutcome::Malformed(e),
            Ok(t) => if t.1 != local_rate {
                ReceiveOutcome::RateMismatch { remote: t.1, local: local_rate }
            } else {
                ReceiveOutcome::Played
            },
        },
    }
}

/// One playback callback of the receiver: decodes the datagram if there is
/// one, discards it unless its rate is the local one, and otherwise plays it
/// remapped to the local channel count. Whatever is not played is silence.
pub fn receive_into(payload: Option<&[u8]>, local_channels: u16, local_rate: u32, out: &mut Vec<u32>) -> (r: ReceiveOutcome)
    requires
        local_channels >= 1,
    ensures
        r == receive_outcome(
            match payload {
                Some(b) => Some(b@),
                None => None,
            },
            local_rate,
        ),
        final(out)@.len() == old(out)@.len(),
        r == ReceiveOutcome::Played ==> (payload matches Some(b) && decode_result(b@) matches Ok(t)
            && forall|k: int|
            0 <= k < final(out)@.len() ==> #[trigger] final(out)@[k] == fill_at(
                t.2,
                t.0 as nat,
                local_channels as nat,
                k,
            )),
        r != ReceiveOutcome::Played ==> forall|k: int|
            0 <= k < final(out)@.len() ==> #[trigger] final(out)@[k] == SILENCE,
{
    match payload {
        None => {
            fill_silence(out);
            ReceiveOutcome::NoData
        },
        Some(bytes) => match decode(bytes) {
            Err(e) => {
                fill_silence(out);
                ReceiveOutcome::Malformed(e)
            },
            Ok(frame) => {
                if frame.sample_rate != local_rate {
                    fill_silence(out);
                    ReceiveOutcome::RateMismatch { remote: frame.sample_rate, local: local_rate }
                } else {
                    play_frame(&frame.samples, frame.channels, local_channels, out);
                    ReceiveOutcome::Played
                }
            },
        },
    }
}

/// The sender's payload for one capture callback: the captured samples tagged
/// with the local device's channel count and sample rate, encoded.
pub fn sender_payload(channels: u16, sample_rate: u32, data: &[u32]) -> (r: Vec<u8>)
    requires
        header_len() + 4 * data@.len() <= isize::MAX,
    ensures
        r@ == wire_bytes(channels, sample_rate, data@),
{
    let frame = AudioFrame { channels, sample_rate, samples: copy_samples(data) };
    encode(&frame)
}

/// A frame sent at a rate other than the receiver's is discarded whole: the
/// receiver reports the two rates and plays silence, and the session goes on.
pub proof fn lemma_rate_mismatch_discarded(channels: u16, sample_rate: u32, samples: Seq<u32>, local_rate: u32)
    requires
        channels >= 1,
        sample_rate > 0,
        samples.len() % (channels as nat) == 0,
        samples.len() <= u64::MAX,
        sample_rate != local_rate,
    ensures
        receive_outcome(Some(wire_bytes(channels, sample_rate, samples)), local_rate)
            == (ReceiveOutcome::RateMismatch { remote: sample_rate, local: local_rate }),
{
    crate::codec::lemma_codec_round_trip(channels, sample_rate, samples);
}

} // verus!
