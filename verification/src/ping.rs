//! The ping/pong liveness protocol, client side. A periodic timer (owned
//! by the caller) drives `send_ping` at 1 Hz; radio-silence detection is
//! one optional timestamp: the time of the first ping that has not been
//! answered by a pong.

use vstd::prelude::*;

use crate::types::TimeVal;

verus! {

/// Default interval between pings, in seconds.
pub const PING_INTERVAL_SECONDS: u64 = 1;

/// A timestamp in whole microseconds, for durations and comparisons.
/// Any `TimeVal` fits: seconds span at most +/-2^31 of them.
pub open spec fn spec_micros(t: TimeVal) -> int {
    t.seconds * 1_000_000 + t.microseconds
}

/// The ping state after sending a ping at `now`: an unanswered ping that
/// is already pending keeps its original timestamp.
pub open spec fn spec_after_send(state: Option<TimeVal>, now: TimeVal) -> Option<TimeVal> {
    match state {
        None => Some(now),
        Some(t0) => Some(t0),
    }
}

/// Ping idempotence: once a ping is pending, further pings (before any
/// pong) leave the first-unanswered timestamp exactly as it was.
pub proof fn lemma_ping_idempotent(state: Option<TimeVal>, t1: TimeVal, t2: TimeVal)
    ensures
        spec_after_send(spec_after_send(state, t1), t2) == spec_after_send(state, t1),
{
}

/// Radio-silence watcher for one watched sender.
#[derive(Debug, Clone, Copy, PartialEq, Eq, Structural)]
pub struct Client {
    /// Set when a ping is sent while none is pending; cleared by a pong.
    pub first_unanswered_ping: Option<TimeVal>,
}

impl Client {
    /// A fresh client: nothing pending.
    pub fn new() -> (r: Client)
        ensures
            r.first_unanswered_ping is None,
    {
        Client { first_unanswered_ping: None }
    }

    /// Record that a ping was sent at `now`. If none was pending, this
    /// becomes the first unanswered ping; a pending one is kept.
    pub fn send_ping(&mut self, now: TimeVal)
        ensures
            final(self).first_unanswered_ping == spec_after_send(
                old(self).first_unanswered_ping,
                now,
            ),
    {
        if self.first_unanswered_ping.is_none() {
            self.first_unanswered_ping = Some(now);
        }
    }

    /// Record that a pong arrived: the peer is alive, nothing is pending.
    pub fn pong_received(&mut self)
        ensures
            final(self).first_unanswered_ping is None,
    {
        self.first_unanswered_ping = None;
    }

    /// Check for radio silence at `now` against a threshold in
    /// microseconds: if the first unanswered ping is at least that old,
    /// return how long it has gone unanswered. A negative duration (a
    /// clock that went backwards) never trips a non-negative threshold.
    pub fn check_ping_cycle(&self, now: TimeVal, threshold_micros: i64) -> (r: Option<i64>)
        ensures
            ({
                match self.first_unanswered_ping {
                    None => r is None,
                    Some(t0) => {
                        let silence = spec_micros(now) - spec_micros(t0);
                        &&& silence >= threshold_micros ==> r == Some(silence as i64)
                        &&& silence < threshold_micros ==> r is None
                    },
                }
            }),
    {
        match self.first_unanswered_ping {
            None => None,
            Some(t0) => {
                let now_micros: i64 = (now.seconds as i64) * 1_000_000 + (now.microseconds as i64);
                let t0_micros: i64 = (t0.seconds as i64) * 1_000_000 + (t0.microseconds as i64);
                let silence = now_micros - t0_micros;
                if silence >= threshold_micros {
                    Some(silence)
                } else {
                    None
                }
            },
        }
    }
}

} // verus!
