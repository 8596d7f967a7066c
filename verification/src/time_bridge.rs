//! The time bridge: the offset between a server's clock and the client's,
//! estimated from round-trip probes.

use vstd::prelude::*;

verus! {

/// The estimate of one connection. Times are microseconds.
#[derive(Clone, Copy, Debug, PartialEq, Eq, Structural)]
pub struct TimeBridge {
    /// Client time minus server time.
    pub offset: i64,
    /// Whether a probe was taken since the connection was made.
    pub synced: bool,
}

/// The offset that one probe measures: the client's time at the answer,
/// minus the server's time moved on by half the round trip.
pub open spec fn probe_sample(sent: u64, received: u64, server: u64) -> int {
    let round_trip: int = if received >= sent {
        received - sent
    } else {
        0
    };
    received - (server + round_trip / 2)
}

/// An estimate moved a tenth of the way to a new sample.
pub open spec fn blend(estimate: int, sample: int) -> int {
    if sample >= estimate {
        estimate + (sample - estimate) / 10
    } else {
        estimate - (estimate - sample) / 10
    }
}

/// `x` where it is an `i64`, else the nearest `i64`.
pub open spec fn nearest_i64(x: int) -> i64 {
    if x < i64::MIN {
        i64::MIN
    } else if x > i64::MAX {
        i64::MAX
    } else {
        x as i64
    }
}

/// `x` where it is a `u64`, else the nearest `u64`.
pub open spec fn nearest_u64(x: int) -> u64 {
    if x < 0 {
        0
    } else if x > u64::MAX {
        u64::MAX
    } else {
        x as u64
    }
}

impl TimeBridge {
    /// The bridge of a fresh connection: no offset, no probe yet.
    pub fn new() -> (r: Self)
        ensures
            r == (TimeBridge { offset: 0, synced: false }),
    {
        TimeBridge { offset: 0, synced: false }
    }

    /// Forgets the estimate, as on a reconnect.
    pub fn reset(&mut self)
        ensures
            *final(self) == (TimeBridge { offset: 0, synced: false }),
    {
        self.offset = 0;
        self.synced = false;
    }

    /// The estimate after a probe.
    pub open spec fn after_probe(self, sent: u64, received: u64, server: u64) -> TimeBridge {
        let sample = nearest_i64(probe_sample(sent, received, server));
        TimeBridge {
            offset: if self.synced {
                nearest_i64(blend(self.offset as int, sample as int))
            } else {
                sample
            },
            synced: true,
        }
    }

    /// Takes a probe into the estimate: the client's time when it asked
    /// and when the answer came, and the server's time in the answer. The
    /// first probe sets the offset; each later one moves it a tenth of the
    /// way.
    pub fn probe(&mut self, sent: u64, received: u64, server: u64)
        ensures
            *final(self) == old(self).after_probe(sent, received, server),
    {
        let round_trip: u64 = if received >= sent {
            received - sent
        } else {
            0
        };
        let wide: i128 = received as i128 - (server as i128 + (round_trip / 2) as i128);
        let sample = narrow(wide);
        if self.synced {
            let estimate = self.offset as i128;
            let s = sample as i128;
            let moved: i128 = if s >= estimate {
                estimate + (s - estimate) / 10
            } else {
                estimate - (estimate - s) / 10
            };
            self.offset = narrow(moved);
        } else {
            self.offset = sample;
        }
        self.synced = true;
    }

    /// The client time of a server time.
    pub fn to_client_time(&self, server: u64) -> (client: u64)
        ensures
            client == nearest_u64(server + self.offset),
    {
        let wide: i128 = server as i128 + self.offset as i128;
        if wide < 0 {
            0
        } else if wide > u64::MAX as i128 {
            u64::MAX
        } else {
            wide as u64
        }
    }

    /// The server's time at the client time `client_now`.
    pub fn server_time_now(&self, client_now: u64) -> (server: u64)
        ensures
            server == nearest_u64(client_now - self.offset),
    {
        let wide: i128 = client_now as i128 - self.offset as i128;
        if wide < 0 {
            0
        } else if wide > u64::MAX as i128 {
            u64::MAX
        } else {
            wide as u64
        }
    }
}

fn narrow(x: i128) -> (r: i64)
    ensures
        r == nearest_i64(x as int),
{
    if x < i64::MIN as i128 {
        i64::MIN
    } else if x > i64::MAX as i128 {
        i64::MAX
    } else {
        x as i64
    }
}

/// A server time maps to a client time and back to itself, as long as
/// neither step leaves the range of the clock.
pub proof fn lemma_there_and_back(bridge: TimeBridge, server: u64)
    requires
        0 <= server + bridge.offset <= u64::MAX,
    ensures
        nearest_u64(nearest_u64(server + bridge.offset) - bridge.offset) == server,
{
}

/// The length of a tick in microseconds.
pub const TICK_MICROS: u64 = 15000;

/// How long the engine sleeps after working for `elapsed` microseconds in
/// a tick: the rest of the tick, and nothing where the work took longer.
pub fn remaining_sleep(elapsed: u64) -> (sleep: u64)
    ensures
        sleep == (if elapsed >= TICK_MICROS {
            0
        } else {
            TICK_MICROS - elapsed
        }),
        elapsed + sleep >= TICK_MICROS,
        sleep <= TICK_MICROS,
{
    if elapsed >= TICK_MICROS {
        0
    } else {
        TICK_MICROS - elapsed
    }
}

} // verus!
