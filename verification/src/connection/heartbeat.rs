//! Keeping the gateway sure that somebody is there.

use crate::errors::{Error, ProtocolError};
use crate::gateway::command::{GatewayCommand, HeartbeatCommand};
use crate::gateway::event::GatewayHeartbeatAckState;
use crate::media::nonce::{HeartbeatNonce, JS_MAX_SAFE_INTEGER};
use crate::time::{capped_64, Duration, Instant};
use vstd::prelude::*;

verus! {

/// How long the gateway may take to answer: two intervals, and at least a second.
pub open spec fn ack_timeout(interval_ms: u64) -> Duration {
    let twice = Duration::millis(capped_64(2 * interval_ms));
    if twice.nanos >= 1_000_000_000 {
        twice
    } else {
        Duration { nanos: 1_000_000_000 }
    }
}

pub fn heartbeat_ack_timeout(heartbeat_interval_ms: u64) -> (timeout: Duration)
    ensures
        timeout == ack_timeout(heartbeat_interval_ms),
{
    let twice: u64 = match heartbeat_interval_ms.checked_mul(2) {
        Some(twice) => twice,
        None => u64::MAX,
    };
    Duration::from_millis(twice).longer(Duration::from_secs(1))
}

/// The heartbeats of a connection.
pub struct Heartbeat {
    pub nonce: HeartbeatNonce,
    pub ack: GatewayHeartbeatAckState,
    pub timeout: Duration,
}

impl Heartbeat {
    pub fn new(nonce: HeartbeatNonce, heartbeat_interval_ms: u64) -> (heartbeat: Self)
        ensures
            heartbeat == (Heartbeat {
                nonce,
                ack: GatewayHeartbeatAckState { pending: false, sent_at: None },
                timeout: ack_timeout(heartbeat_interval_ms),
            }),
    {
        Heartbeat {
            nonce,
            ack: GatewayHeartbeatAckState::new(),
            timeout: heartbeat_ack_timeout(heartbeat_interval_ms),
        }
    }

    /// What is to be done when an interval is over: a heartbeat is sent. While the one
    /// before was not answered none is, and when it was not for too long, that is an error.
    pub fn tick(&mut self, now: Instant, last_seq: Option<i64>) -> (command: Result<
        Option<GatewayCommand>,
        Error,
    >)
        ensures
            final(self).ack == old(self).ack,
            final(self).timeout == old(self).timeout,
            if old(self).ack.pending {
                &&& final(self).nonce == old(self).nonce
                &&& command == (if old(self).ack.sent_at matches Some(sent_at)
                    && now.elapsed_since(sent_at).nanos >= old(self).timeout.nanos {
                    Err::<Option<GatewayCommand>, Error>(
                        Error::Protocol(ProtocolError::HeartbeatAckTimeout),
                    )
                } else {
                    Ok::<Option<GatewayCommand>, Error>(None)
                })
            } else {
                &&& final(self).nonce@ == (old(self).nonce@ + 1) % JS_MAX_SAFE_INTEGER as int
                &&& command == Ok::<Option<GatewayCommand>, Error>(
                    Some(
                        GatewayCommand::Heartbeat(
                            HeartbeatCommand { t: final(self).nonce@, seq_ack: last_seq },
                        ),
                    ),
                )
            },
    {
        if self.ack.is_pending() {
            if self.ack.timed_out(self.timeout, now) {
                return Err(Error::Protocol(ProtocolError::HeartbeatAckTimeout));
            }
            return Ok(None);
        }
        let mut nonce = self.nonce;
        let t: u64 = nonce.next();
        self.nonce = nonce;
        Ok(Some(GatewayCommand::Heartbeat(HeartbeatCommand { t, seq_ack: last_seq })))
    }

    /// The heartbeat was sent.
    pub fn sent(&mut self, now: Instant)
        ensures
            *final(self) == (Heartbeat {
                ack: GatewayHeartbeatAckState { pending: true, sent_at: Some(now) },
                ..*old(self)
            }),
    {
        self.ack.mark_sent(now);
    }
}

/// The gateway may take two intervals to answer; of intervals shorter than half a second it
/// may take a whole second.
pub proof fn law_answers_may_take_two_intervals(interval_ms: u64)
    requires
        interval_ms <= u64::MAX / 2,
    ensures
        interval_ms >= 500 ==> ack_timeout(interval_ms).nanos == 2 * (interval_ms * 1_000_000),
        interval_ms <= 500 ==> ack_timeout(interval_ms).nanos == 1_000_000_000,
        ack_timeout(interval_ms).nanos >= interval_ms * 1_000_000,
{
}

} // verus!
