//! Live audio routing between two devices: channel remapping, a bounded
//! sample hand-off for local loopback, a datagram frame codec for network
//! mirroring, and the session lifecycle that validates and owns the streams.
//!
//! Samples are carried as the bit patterns of 32-bit IEEE-754 floats
//! (`f32::to_bits`); silence is the pattern of `0.0`, which is `0`.

mod codec;
mod network;
mod remap;
mod ring;
mod session;

pub use remap::{remap, remapped, remap_at, group_count, SILENCE};
pub use codec::{AudioFrame, DecodeError, encode, decode, decode_result, wire_bytes, lemma_codec_round_trip};
pub use ring::{SampleRing, push_one, push_all, capture_into, playback_from, run_ops, pushed_by, never_full, lemma_fifo_order};
pub use network::{StreamType, ReceiveOutcome, receive_into, receive_outcome, fill_at, sender_payload, play_frame, fill_silence, lemma_rate_mismatch_discarded};
pub use session::{DeviceDescriptor, ConfigError, FatalError, SessionState, Route, Session, IoStatus, choose_device_index, local_check, network_check, route_ok};
