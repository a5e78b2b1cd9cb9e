//! The tick clock: derives the current tick index from server time
//! updates and a monotonic wall clock, and exposes the deadline at which
//! the current tick ends.
//!
//! Wall-clock instants are carried as milliseconds on a monotonic scale
//! chosen by the embedder (for example, milliseconds since the
//! connection opened).  A tick starts at 50 ms and is trimmed by
//! ±1 ms per server time update to converge on the server's world age,
//! never below 1 ms and never above `TICK_DURATION_CAP_MS`.

use crate::packets::ServerPacket;
use vstd::prelude::*;

verus! {

/// The initial and nominal tick length.
pub const TICK_DURATION_START_MS: u64 = 50;

/// Overflow headroom for the deadline sums: the tick length stays
/// below this, which one-millisecond nudges cannot approach within
/// any session.
pub const TICK_DURATION_CAP_MS: u64 = 0x1_0000_0000_0000;

/// Largest wall-clock reading the clock is specified for: about 8900
/// years of milliseconds, far beyond any session.
pub const NOW_CAP_MS: u64 = 0x1_0000_0000_0000;

/// Largest tick index the clock is specified for.
pub const TICK_CAP: i64 = 0x4000_0000_0000_0000;

pub struct Clock {
    current_tick: i64,
    current_tick_end: u64,
    tick_duration: u64,
    initialized: bool,
}

impl Clock {
    /// The clock's operating envelope: the tick length stays in its
    /// trimmed band and the deadline stays on the wall-clock scale.
    pub closed spec fn wf(self) -> bool {
        &&& 1 <= self.tick_duration <= TICK_DURATION_CAP_MS
        &&& self.current_tick_end <= NOW_CAP_MS + TICK_DURATION_CAP_MS
    }

    pub closed spec fn spec_current_tick(self) -> i64 {
        self.current_tick
    }

    pub closed spec fn spec_current_tick_end(self) -> u64 {
        self.current_tick_end
    }

    pub closed spec fn spec_tick_duration(self) -> u64 {
        self.tick_duration
    }

    pub closed spec fn spec_initialized(self) -> bool {
        self.initialized
    }

    /// A fresh clock: tick 0, first deadline 50 ms from now, not yet
    /// synchronised to the server.
    pub fn new(now_ms: u64) -> (r: Clock)
        requires
            now_ms <= NOW_CAP_MS,
        ensures
            r.wf(),
            r.spec_current_tick() == 0,
            r.spec_current_tick_end() == now_ms + TICK_DURATION_START_MS,
            r.spec_tick_duration() == TICK_DURATION_START_MS,
            !r.spec_initialized(),
    {
        Clock {
            current_tick: 0,
            current_tick_end: now_ms + TICK_DURATION_START_MS,
            tick_duration: TICK_DURATION_START_MS,
            initialized: false,
        }
    }

    pub fn current_tick(&self) -> (r: i64)
        ensures
            r == self.spec_current_tick(),
    {
        self.current_tick
    }

    /// The current tick length in milliseconds.
    pub fn tick_duration_ms(&self) -> (r: u64)
        ensures
            r == self.spec_tick_duration(),
    {
        self.tick_duration
    }

    /// The deadline used by the deadline-bounded socket read.
    pub fn current_tick_end(&self) -> (r: u64)
        ensures
            r == self.spec_current_tick_end(),
    {
        self.current_tick_end
    }

    /// Observe a server time update carrying the world age.
    ///
    /// The first update is adopted verbatim as the current tick; later
    /// ones trim the tick length by one millisecond towards the
    /// server: shorter when the server is ahead, longer when it is
    /// behind, clamped to [1, `TICK_DURATION_CAP_MS`].
    pub fn handle_time_update(&mut self, world_age: i64)
        requires
            old(self).wf(),
        ensures
            final(self).wf(),
            final(self).spec_current_tick_end() == old(self).spec_current_tick_end(),
            final(self).spec_initialized(),
            !old(self).spec_initialized() ==> final(self).spec_current_tick() == world_age
                && final(self).spec_tick_duration() == old(self).spec_tick_duration(),
            old(self).spec_initialized() ==> {
                &&& final(self).spec_current_tick() == old(self).spec_current_tick()
                &&& world_age > old(self).spec_current_tick() ==> final(self).spec_tick_duration()
                    == (if old(self).spec_tick_duration() > 1 {
                        old(self).spec_tick_duration() - 1
                    } else {
                        old(self).spec_tick_duration() as int
                    })
                &&& world_age < old(self).spec_current_tick() ==> final(self).spec_tick_duration()
                    == (if old(self).spec_tick_duration() < TICK_DURATION_CAP_MS {
                        old(self).spec_tick_duration() + 1
                    } else {
                        old(self).spec_tick_duration() as int
                    })
                &&& world_age == old(self).spec_current_tick() ==> final(self).spec_tick_duration()
                    == old(self).spec_tick_duration()
            },
    {
        if self.initialized {
            if world_age > self.current_tick {
                if self.tick_duration > 1 {
                    self.tick_duration = self.tick_duration - 1;
                }
            } else if world_age < self.current_tick {
                if self.tick_duration < TICK_DURATION_CAP_MS {
                    self.tick_duration = self.tick_duration + 1;
                }
            }
        } else {
            self.current_tick = world_age;
            self.initialized = true;
        }
    }

    /// Observe a packet: only time updates concern the clock.
    pub fn handle_packet(&mut self, packet: &ServerPacket)
        requires
            old(self).wf(),
        ensures
            final(self).wf(),
            final(self).spec_current_tick_end() == old(self).spec_current_tick_end(),
            (*packet) matches ServerPacket::TimeUpdate { world_age, .. } ==> ({
                &&& final(self).spec_initialized()
                &&& (!old(self).spec_initialized() ==> final(self).spec_current_tick()
                    == world_age && final(self).spec_tick_duration() == old(self).spec_tick_duration())
                &&& (old(self).spec_initialized() ==> {
                    &&& final(self).spec_current_tick() == old(self).spec_current_tick()
                    &&& (world_age > old(self).spec_current_tick() ==> final(self).spec_tick_duration() == (if old(self).spec_tick_duration() > 1 {
                        old(self).spec_tick_duration() - 1
                    } else {
                        old(self).spec_tick_duration() as int
                    }))
                    &&& (world_age < old(self).spec_current_tick() ==> final(self).spec_tick_duration() == (if old(self).spec_tick_duration()
                        < TICK_DURATION_CAP_MS {
                        old(self).spec_tick_duration() + 1
                    } else {
                        old(self).spec_tick_duration() as int
                    }))
                    &&& (world_age == old(self).spec_current_tick() ==> final(self).spec_tick_duration() == old(self).spec_tick_duration())
                })
            }),
            !((*packet) is TimeUpdate) ==> *final(self) == *old(self),
    {
        match packet {
            ServerPacket::TimeUpdate { world_age, .. } => {
                self.handle_time_update(*world_age);
            },
            _ => {},
        }
    }

    /// Advance past every tick boundary the wall clock has crossed.
    ///
    /// Returns whether any boundary was crossed.  The tick index never
    /// decreases, and afterwards the deadline lies strictly in the
    /// future.
    pub fn advance(&mut self, now_ms: u64) -> (crossed: bool)
        requires
            old(self).wf(),
            now_ms <= NOW_CAP_MS,
            old(self).spec_current_tick() <= TICK_CAP,
        ensures
            final(self).wf(),
            final(self).spec_tick_duration() == old(self).spec_tick_duration(),
            final(self).spec_initialized() == old(self).spec_initialized(),
            final(self).spec_current_tick() >= old(self).spec_current_tick(),
            crossed == (final(self).spec_current_tick() > old(self).spec_current_tick()),
            final(self).spec_current_tick_end() > now_ms,
            final(self).spec_current_tick_end() == old(self).spec_current_tick_end() + (final(self).spec_current_tick()
                - old(self).spec_current_tick()) * old(self).spec_tick_duration(),
            crossed ==> final(self).spec_current_tick_end() - old(self).spec_tick_duration()
                <= now_ms,
    {
        let ghost start_tick = self.current_tick;
        let ghost start_end = self.current_tick_end;
        let mut crossed: bool = false;
        while self.current_tick_end <= now_ms
            invariant
                1 <= self.tick_duration <= TICK_DURATION_CAP_MS,
                now_ms <= NOW_CAP_MS,
                self.tick_duration == old(self).spec_tick_duration(),
                self.initialized == old(self).spec_initialized(),
                self.current_tick >= start_tick,
                start_tick <= TICK_CAP,
                crossed == (self.current_tick > start_tick),
                self.current_tick_end == start_end + (self.current_tick - start_tick)
                    * self.tick_duration,
                crossed ==> self.current_tick_end - self.tick_duration <= now_ms,
                self.current_tick_end <= NOW_CAP_MS + TICK_DURATION_CAP_MS,
                self.current_tick - start_tick <= NOW_CAP_MS + TICK_DURATION_CAP_MS,
            decreases NOW_CAP_MS + TICK_DURATION_CAP_MS - self.current_tick_end,
        {
            proof {
                assert((self.current_tick - start_tick + 1) * self.tick_duration == (
                self.current_tick - start_tick) * self.tick_duration + self.tick_duration)
                    by (nonlinear_arith);
                assert((self.current_tick - start_tick + 1) * self.tick_duration >= self.current_tick
                    - start_tick + 1) by (nonlinear_arith)
                    requires
                        self.tick_duration >= 1 && self.current_tick - start_tick + 1 >= 0,
                ;
            }
            self.current_tick = self.current_tick + 1;
            self.current_tick_end = self.current_tick_end + self.tick_duration;
            crossed = true;
        }
        crossed
    }
}

} // verus!
