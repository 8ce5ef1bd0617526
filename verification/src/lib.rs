//! A Discord voice runtime: the verified part.
//!
//! Everything in here is data, rules and state machines on plain values: RTP and
//! RTCP headers, media payload formats, transport packet sealing, Opus packet and
//! Ogg archive framing, PCM formats, the voice gateway protocol, the DAVE
//! transition rules, receive reordering, and the pacing of playout. Sockets,
//! clocks, tasks and floating-point audio are the business of the application
//! around this crate.

pub mod annex_b;
pub mod bytes;
pub mod codec;
pub mod codecs;
pub mod connection;
pub mod dave;
pub mod errors;
pub mod gateway;
pub mod leb128;
pub mod media;
pub mod nonzero;
pub mod observer;
pub mod opus;
pub mod pcm;
pub mod queue;
pub mod roster;
pub mod rtp;
pub mod rtp_payload;
pub mod secrets;
pub mod state;
pub mod stats;
pub mod text;
pub mod time;

pub use codec::{Codec, MediaType};
pub use rtp::RtpPayloadType;
