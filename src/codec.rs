use vstd::prelude::*;

verus! {

/// One buffer of interleaved samples with the channel count and sample rate of
/// the device that captured it.
pub struct AudioFrame {
    pub channels: u16,
    pub sample_rate: u32,
    pub samples: Vec<u32>,
}

impl AudioFrame {
    /// A frame that can be sent: at least one channel, a positive rate, and
    /// whole groups of `channels` samples.
    pub open spec fn valid(&self) -> bool {
        &&& self.channels >= 1
        &&& self.sample_rate > 0
        &&& self.samples@.len() % (self.channels as nat) == 0
    }
}

/// Why a datagram could not be decoded into a frame.
#[derive(Debug, Clone, Copy, PartialEq, Eq, Structural)]
pub enum DecodeError {
    /// The bytes are too short for the header or for the samples it announces.
    Malformed,
    /// The header announces a frame without channels.
    NoChannels,
}

/// The `n` bytes of `v`, least significant first.
pub open spec fn le_bytes(v: nat, n: nat) -> Seq<u8>
    decreases n,
{
    if n == 0 {
        Seq::empty()
    } else {
        seq![(v % 256) as u8] + le_bytes(v / 256, (n - 1) as nat)
    }
}

/// The number that `b` writes, least significant byte first.
pub open spec fn le_value(b: Seq<u8>) -> nat
    decreases b.len(),
{
    if b.len() == 0 {
        0
    } else {
        b[0] as nat + 256 * le_value(b.drop_first())
    }
}

/// Each sample as four little-endian bytes, in order.
pub open spec fn samples_bytes(s: Seq<u32>) -> Seq<u8>
    decreases s.len(),
{
    if s.len() == 0 {
        Seq::empty()
    } else {
        le_bytes(s[0] as nat, 4) + samples_bytes(s.drop_first())
    }
}

/// The datagram payload of a frame: channels (2 bytes), sample rate (4 bytes),
/// sample count (8 bytes), then the samples; all little-endian.
pub open spec fn wire_bytes(channels: u16, sample_rate: u32, samples: Seq<u32>) -> Seq<u8> {
    le_bytes(channels as nat, 2) + le_bytes(sample_rate as nat, 4) + le_bytes(samples.len(), 8)
        + samples_bytes(samples)
}

/// Length of the fixed header before the samples.
pub open spec fn header_len() -> int {
    14
}

/// The sample count that the header of `b` announces.
pub open spec fn announced_count(b: Seq<u8>) -> nat {
    le_value(b.subrange(6, 14))
}

/// Whether `b` holds a header and every sample that it announces (bytes after
/// them are ignored).
pub open spec fn parses(b: Seq<u8>) -> bool {
    b.len() >= header_len() && b.len() >= header_len() + 4 * announced_count(b)
}

/// The channel count in the header of `b`.
pub open spec fn parsed_channels(b: Seq<u8>) -> u16 {
    le_value(b.subrange(0, 2)) as u16
}

/// The sample rate in the header of `b`.
pub open spec fn parsed_rate(b: Seq<u8>) -> u32 {
    le_value(b.subrange(2, 6)) as u32
}

/// The samples that the header of `b` announces, read from after it.
pub open spec fn parsed_samples(b: Seq<u8>) -> Seq<u32> {
    Seq::new(
        announced_count(b),
        |i: int| le_value(b.subrange(header_len() + 4 * i, header_len() + 4 * i + 4)) as u32,
    )
}

#[verifier::external_type_specification]
#[verifier::external_body]
pub struct ExBincodeErrorKind(bincode::ErrorKind);

/// Relies on `bincode::serialize` (bincode 1, whose default there is fixed-width
/// little-endian integers and a `u64` length before a sequence) writing a
/// `(u16, u32, Vec<u32>)` as the three fields in order, into a `Vec` that
/// cannot fail. An `f32` is written as the four bytes of its bit pattern, so
/// this is also the encoding of the same frame with `f32` samples. The output
/// buffer is allocated at its full size first, so that size must fit.
#[verifier::external_body]
fn bincode_serialize(channels: u16, sample_rate: u32, samples: &Vec<u32>) -> (r: Result<
    Vec<u8>,
    Box<bincode::ErrorKind>,
>)
    requires
        header_len() + 4 * samples@.len() <= isize::MAX,
    ensures
        r is Ok,
        r matches Ok(b) ==> b@ == wire_bytes(channels, sample_rate, samples@),
{
    bincode::serialize(&(channels, sample_rate, samples))
}

/// Relies on `bincode::deserialize` (bincode 1 defaults: fixed-width
/// little-endian integers, a `u64` length before a sequence, trailing bytes
/// allowed) reading a `(u16, u32, Vec<u32>)`: it fails exactly when the bytes
/// end before the header or before the last announced sample.
#[verifier::external_body]
fn bincode_deserialize(bytes: &[u8]) -> (r: Result<(u16, u32, Vec<u32>), Box<bincode::ErrorKind>>)
    ensures
        r is Ok <==> parses(bytes@),
        r matches Ok(t) ==> {
            &&& t.0 == parsed_channels(bytes@)
            &&& t.1 == parsed_rate(bytes@)
            &&& t.2@ == parsed_samples(bytes@)
        },
{
    bincode::deserialize::<(u16, u32, Vec<u32>)>(bytes)
}

/// Encodes `frame` as one datagram payload.
pub fn encode(frame: &AudioFrame) -> (r: Vec<u8>)
    requires
        header_len() + 4 * frame.samples@.len() <= isize::MAX,
    ensures
        r@ == wire_bytes(frame.channels, frame.sample_rate, frame.samples@),
{
    match bincode_serialize(frame.channels, frame.sample_rate, &frame.samples) {
        Ok(b) => b,
        Err(_) => Vec::new(),
    }
}

/// What `decode` returns for the payload `b`.
pub open spec fn decode_result(b: Seq<u8>) -> Result<(u16, u32, Seq<u32>), DecodeError> {
    if !parses(b) {
        Err(DecodeError::Malformed)
    } else if parsed_channels(b) == 0 {
        Err(DecodeError::NoChannels)
    } else {
        Ok((parsed_channels(b), parsed_rate(b), parsed_samples(b)))
    }
}

/// Decodes one datagram payload into a frame.
pub fn decode(bytes: &[u8]) -> (r: Result<AudioFrame, DecodeError>)
    ensures
        match decode_result(bytes@) {
            Ok(t) => r matches Ok(f) && f.channels == t.0 && f.sample_rate == t.1
                && f.samples@ == t.2,
            Err(e) => r == Err::<AudioFrame, DecodeError>(e),
        },
{
    match bincode_deserialize(bytes) {
        Ok((channels, sample_rate, samples)) => {
            if channels == 0 {
                Err(DecodeError::NoChannels)
            } else {
                Ok(AudioFrame { channels, sample_rate, samples })
            }
        },
        Err(_) => Err(DecodeError::Malformed),
    }
}

/// `256` to the power `n`: the values that `n` bytes can write.
pub open spec fn byte_range(n: nat) -> nat
    decreases n,
{
    if n == 0 {
        1
    } else {
        256 * byte_range((n - 1) as nat)
    }
}

proof fn lemma_le_bytes_len(v: nat, n: nat)
    ensures
        le_bytes(v, n).len() == n,
    decreases n,
{
    if n > 0 {
        lemma_le_bytes_len(v / 256, (n - 1) as nat);
    }
}

proof fn lemma_le_round_trip(v: nat, n: nat)
    requires
        v < byte_range(n),
    ensures
        le_value(le_bytes(v, n)) == v,
    decreases n,
{
    if n > 0 {
        let m = (n - 1) as nat;
        assert(v / 256 < byte_range(m));
        lemma_le_round_trip(v / 256, m);
        let b = le_bytes(v, n);
        assert(b.drop_first() =~= le_bytes(v / 256, m));
        assert(b[0] as nat == v % 256);
    }
}

proof fn lemma_samples_bytes(s: Seq<u32>)
    ensures
        samples_bytes(s).len() == 4 * s.len(),
        forall|i: int|
            #![trigger s[i]]
            0 <= i < s.len() ==> samples_bytes(s).subrange(4 * i, 4 * i + 4) == le_bytes(
                s[i] as nat,
                4,
            ),
    decreases s.len(),
{
    if s.len() > 0 {
        let t = s.drop_first();
        lemma_samples_bytes(t);
        lemma_le_bytes_len(s[0] as nat, 4);
        let b = samples_bytes(s);
        assert forall|i: int| #![trigger s[i]] 0 <= i < s.len() implies b.subrange(
            4 * i,
            4 * i + 4,
        ) == le_bytes(s[i] as nat, 4) by {
            if i == 0 {
                assert(b.subrange(0, 4) =~= le_bytes(s[0] as nat, 4));
            } else {
                assert(t[i - 1] == s[i]);
                assert(b.subrange(4 * i, 4 * i + 4) =~= samples_bytes(t).subrange(
                    4 * (i - 1),
                    4 * (i - 1) + 4,
                ));
            }
        }
    }
}

/// Decoding the encoding of a valid frame gives back the same frame: the same
/// channel count, sample rate and samples.
pub proof fn lemma_codec_round_trip(channels: u16, sample_rate: u32, samples: Seq<u32>)
    requires
        channels >= 1,
        sample_rate > 0,
        samples.len() % (channels as nat) == 0,
        samples.len() <= u64::MAX,
    ensures
        decode_result(wire_bytes(channels, sample_rate, samples)) == Ok::<
            (u16, u32, Seq<u32>),
            DecodeError,
        >((channels, sample_rate, samples)),
{
    let a = le_bytes(channels as nat, 2);
    let r = le_bytes(sample_rate as nat, 4);
    let c = le_bytes(samples.len(), 8);
    let d = samples_bytes(samples);
    let b = wire_bytes(channels, sample_rate, samples);
    lemma_le_bytes_len(channels as nat, 2);
    lemma_le_bytes_len(sample_rate as nat, 4);
    lemma_le_bytes_len(samples.len(), 8);
    lemma_samples_bytes(samples);
    reveal_with_fuel(byte_range, 9);
    assert(byte_range(2) == 65536);
    assert(byte_range(4) == 4294967296);
    assert(byte_range(8) == 18446744073709551616);
    lemma_le_round_trip(channels as nat, 2);
    lemma_le_round_trip(sample_rate as nat, 4);
    lemma_le_round_trip(samples.len(), 8);
    assert(b.subrange(0, 2) =~= a);
    assert(b.subrange(2, 6) =~= r);
    assert(b.subrange(6, 14) =~= c);
    assert(announced_count(b) == samples.len());
    assert(parses(b));
    assert forall|i: int| 0 <= i < samples.len() implies parsed_samples(b)[i] == samples[i] by {
        assert(b.subrange(14 + 4 * i, 14 + 4 * i + 4) =~= d.subrange(4 * i, 4 * i + 4));
        assert((samples[i] as nat) < byte_range(4));
        lemma_le_round_trip(samples[i] as nat, 4);
    }
    assert(parsed_samples(b) =~= samples);
}

} // verus!
