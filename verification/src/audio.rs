//! The audio path's one decision that isn't arithmetic on samples: how
//! often the mic level meter may update.

use vstd::prelude::*;

verus! {

/// Throttles level-meter updates to a fixed rate so the UI isn't flooded.
/// Times are milliseconds on the app's monotonic clock.
pub struct LevelThrottle {
    pub interval_ms: u64,
    pub last_emit_ms: u64,
}

impl LevelThrottle {
    /// A throttle letting one update through every `interval_ms`, made at
    /// `now_ms` as if the last update went out a second earlier — so the
    /// first one goes straight through.
    pub fn new(interval_ms: u64, now_ms: u64) -> (r: LevelThrottle)
        requires
            now_ms >= 1000,
        ensures
            r.interval_ms == interval_ms,
            r.last_emit_ms == now_ms - 1000,
    {
        LevelThrottle { interval_ms, last_emit_ms: now_ms - 1000 }
    }

    /// Whether an update may go out at `now_ms`: when at least the interval
    /// has passed since the last one that did, which it then becomes.
    pub fn should_emit(&mut self, now_ms: u64) -> (r: bool)
        ensures
            r == (now_ms >= old(self).last_emit_ms && now_ms - old(self).last_emit_ms
                >= old(self).interval_ms || now_ms < old(self).last_emit_ms && old(self).interval_ms
                == 0),
            r ==> final(self).last_emit_ms == now_ms,
            !r ==> final(self).last_emit_ms == old(self).last_emit_ms,
            final(self).interval_ms == old(self).interval_ms,
    {
        let elapsed: u64 = if now_ms >= self.last_emit_ms {
            now_ms - self.last_emit_ms
        } else {
            0
        };
        if elapsed >= self.interval_ms {
            self.last_emit_ms = now_ms;
            true
        } else {
            false
        }
    }
}

/// Updates never come closer together than the interval: after one goes
/// out at `a`, none goes out at `b` before `a + interval`.
pub proof fn law_throttle_spaces_updates(interval_ms: u64, a: u64, b: u64)
    requires
        a <= b,
        b - a < interval_ms,
    ensures
        !(b >= a && b - a >= interval_ms || b < a && interval_ms == 0),
{
}

} // verus!
