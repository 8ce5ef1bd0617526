//! Playing Opus packets at their pace.

pub mod active;
pub mod frame;
pub mod laws;
pub mod report;
pub mod slot;

pub use active::{ActiveOpusPlayout, MediaGate, PlayoutMove};
pub use frame::PlayoutFrame;
pub use slot::{
    ClosedReply, PlayoutAction, PlayoutAnswer, PlayoutCommand, PlayoutEnd, PlayoutSlot,
};
pub use report::{ActiveOpusPlayoutStats, OpusPlayoutStats};
