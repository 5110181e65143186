//! The health of one device: the state it is in, when its last heartbeat
//! arrived, and how often it has faulted; how a message and a watchdog tick
//! change it.

use vstd::prelude::*;
use crate::clock::Clock;
use crate::message::MsgType;
use crate::text::{decimal, push_decimal};

verus! {

/// Seconds of silence after which a nominal device is degraded.
pub const DEGRADED_AFTER_SECS: u64 = 3;

/// Seconds of silence after which a degraded device has faulted.
pub const FAULTED_AFTER_SECS: u64 = 6;

/// The health state of a device.
#[derive(Clone, Copy, Debug, PartialEq, Eq, Structural)]
pub enum DeviceState {
    Nominal,
    Degraded { missed: u32 },
    Faulted,
    Recovering,
}

/// What a device's health record holds. Times are nanoseconds on the
/// broker's monotonic clock.
#[derive(Clone, Copy, Debug, PartialEq, Eq, Structural)]
pub struct DeviceHealth {
    pub state: DeviceState,
    pub last_heartbeat: u64,
    pub fault_count: u32,
}

/// A change of state that a watchdog tick made, as the broker reports it.
#[derive(Clone, Copy, Debug, PartialEq, Eq, Structural)]
pub enum HealthChange {
    /// The device went silent for `silent_secs` seconds and is degraded.
    Degraded { silent_secs: u64 },
    /// The device stayed silent and has faulted, `fault_count` times so far.
    Faulted { fault_count: u32 },
    /// A faulted device now waits to come back.
    Recovering,
}

/// The state as the broker prints it.
pub open spec fn state_text(s: DeviceState) -> Seq<char> {
    match s {
        DeviceState::Nominal => "NOMINAL"@,
        DeviceState::Degraded { missed } => "DEGRADED(missed="@ + decimal(missed as nat) + ")"@,
        DeviceState::Faulted => "FAULTED"@,
        DeviceState::Recovering => "RECOVERING"@,
    }
}

impl DeviceState {
    /// The state as the broker prints it, such as `DEGRADED(missed=2)`.
    pub fn to_string(&self) -> (s: String)
        ensures
            s@ == state_text(*self),
    {
        let mut s = String::new();
        match self {
            DeviceState::Nominal => s.push_str("NOMINAL"),
            DeviceState::Degraded { missed } => {
                s.push_str("DEGRADED(missed=");
                push_decimal(&mut s, *missed as u64);
                s.push_str(")");
            },
            DeviceState::Faulted => s.push_str("FAULTED"),
            DeviceState::Recovering => s.push_str("RECOVERING"),
        }
        s
    }
}

/// Whole seconds from `since` to `now` (nanosecond readings), zero where
/// `now` is earlier (as `Instant::duration_since` saturates).
pub open spec fn silent_secs(now: u64, since: u64) -> u64 {
    if now >= since {
        ((now - since) / 1_000_000_000) as u64
    } else {
        0
    }
}

/// The record after a message of kind `t` arrives at `now`: a heartbeat
/// brings the device back to nominal and restarts its silence.
pub open spec fn received(h: DeviceHealth, t: MsgType, now: u64) -> DeviceHealth {
    if t == MsgType::Heartbeat {
        DeviceHealth { state: DeviceState::Nominal, last_heartbeat: now, fault_count: h.fault_count }
    } else {
        h
    }
}

/// The state a device recovers from when a message of kind `t` arrives.
pub open spec fn recovered_from(h: DeviceHealth, t: MsgType) -> Option<DeviceState> {
    if t == MsgType::Heartbeat && h.state != DeviceState::Nominal {
        Some(h.state)
    } else {
        None
    }
}

/// Whether a watchdog tick at `now` stays within the counters' range.
pub open spec fn tick_fits(h: DeviceHealth, now: u64) -> bool {
    match h.state {
        DeviceState::Degraded { missed } => if silent_secs(now, h.last_heartbeat) >= FAULTED_AFTER_SECS {
            h.fault_count < u32::MAX
        } else {
            missed < u32::MAX
        },
        _ => true,
    }
}

/// The record after a watchdog tick at `now`.
pub open spec fn ticked(h: DeviceHealth, now: u64) -> DeviceHealth {
    let silent = silent_secs(now, h.last_heartbeat);
    match h.state {
        DeviceState::Nominal => if silent >= DEGRADED_AFTER_SECS {
            DeviceHealth { state: DeviceState::Degraded { missed: 1 }, ..h }
        } else {
            h
        },
        DeviceState::Degraded { missed } => if silent >= FAULTED_AFTER_SECS {
            DeviceHealth {
                state: DeviceState::Faulted,
                fault_count: (h.fault_count + 1) as u32,
                ..h
            }
        } else {
            DeviceHealth { state: DeviceState::Degraded { missed: (missed + 1) as u32 }, ..h }
        },
        DeviceState::Faulted => DeviceHealth { state: DeviceState::Recovering, ..h },
        DeviceState::Recovering => h,
    }
}

/// The change a watchdog tick at `now` reports, if it reports one.
pub open spec fn tick_change(h: DeviceHealth, now: u64) -> Option<HealthChange> {
    let silent = silent_secs(now, h.last_heartbeat);
    match h.state {
        DeviceState::Nominal => if silent >= DEGRADED_AFTER_SECS {
            Some(HealthChange::Degraded { silent_secs: silent })
        } else {
            None
        },
        DeviceState::Degraded { .. } => if silent >= FAULTED_AFTER_SECS {
            Some(HealthChange::Faulted { fault_count: (h.fault_count + 1) as u32 })
        } else {
            None
        },
        DeviceState::Faulted => Some(HealthChange::Recovering),
        DeviceState::Recovering => None,
    }
}

/// Whole seconds from `since` to `now`, zero where `now` is earlier.
pub fn elapsed_secs(now: u64, since: u64) -> (s: u64)
    ensures
        s == silent_secs(now, since),
{
    if now >= since {
        (now - since) / 1_000_000_000
    } else {
        0
    }
}

/// The record of a device first heard of at `now`.
pub open spec fn fresh_health(now: u64) -> DeviceHealth {
    DeviceHealth { state: DeviceState::Nominal, last_heartbeat: now, fault_count: 0 }
}

impl DeviceHealth {
    /// A nominal record whose last heartbeat is the current time of `clock`.
    pub fn new(clock: &Clock) -> (h: DeviceHealth)
        ensures
            exists|now: u64| h == fresh_health(now),
    {
        DeviceHealth::started_at(clock.now_ns())
    }

    /// A nominal record, without faults, whose last heartbeat is `now`.
    pub fn started_at(now: u64) -> (h: DeviceHealth)
        ensures
            h == fresh_health(now),
    {
        DeviceHealth { state: DeviceState::Nominal, last_heartbeat: now, fault_count: 0 }
    }

    /// Takes in a message of kind `t` that arrived at `now`; returns the
    /// state the device recovered from, if a heartbeat brought it back.
    pub fn receive(&mut self, t: MsgType, now: u64) -> (back_from: Option<DeviceState>)
        ensures
            *final(self) == received(*old(self), t, now),
            back_from == recovered_from(*old(self), t),
    {
        if t == MsgType::Heartbeat {
            let before = self.state;
            self.last_heartbeat = now;
            if before != DeviceState::Nominal {
                self.state = DeviceState::Nominal;
                return Some(before);
            }
        }
        None
    }

    /// Runs one watchdog tick at `now`; returns the change it made, if any.
    pub fn tick(&mut self, now: u64) -> (change: Option<HealthChange>)
        requires
            tick_fits(*old(self), now),
        ensures
            *final(self) == ticked(*old(self), now),
            change == tick_change(*old(self), now),
    {
        let silent = elapsed_secs(now, self.last_heartbeat);
        match self.state {
            DeviceState::Nominal => {
                if silent >= DEGRADED_AFTER_SECS {
                    self.state = DeviceState::Degraded { missed: 1 };
                    Some(HealthChange::Degraded { silent_secs: silent })
                } else {
                    None
                }
            },
            DeviceState::Degraded { missed } => {
                if silent >= FAULTED_AFTER_SECS {
                    self.fault_count = self.fault_count + 1;
                    self.state = DeviceState::Faulted;
                    Some(HealthChange::Faulted { fault_count: self.fault_count })
                } else {
                    self.state = DeviceState::Degraded { missed: missed + 1 };
                    None
                }
            },
            DeviceState::Faulted => {
                self.state = DeviceState::Recovering;
                Some(HealthChange::Recovering)
            },
            DeviceState::Recovering => None,
        }
    }
}


/// A heartbeat brings any device back to nominal, restarts its silence at
/// the time it arrived and keeps its fault count; any other message leaves
/// the record as it was.
pub proof fn heartbeat_law(h: DeviceHealth, t: MsgType, now: u64)
    ensures
        received(h, MsgType::Heartbeat, now) == (DeviceHealth {
            state: DeviceState::Nominal,
            last_heartbeat: now,
            fault_count: h.fault_count,
        }),
        t != MsgType::Heartbeat ==> received(h, t, now) == h,
{
}

/// A device whose last heartbeat is less than 3 seconds old stays nominal
/// through a watchdog tick, and a recovering device stays recovering until
/// a heartbeat arrives.
pub proof fn quiet_tick_law(h: DeviceHealth, now: u64)
    ensures
        h.state == DeviceState::Nominal && silent_secs(now, h.last_heartbeat)
            < DEGRADED_AFTER_SECS ==> ticked(h, now) == h && tick_change(h, now) is None,
        h.state == DeviceState::Recovering ==> ticked(h, now) == h && tick_change(h, now) is None,
{
}

/// Silence escalates: a nominal device that stays silent is degraded by a
/// tick 3 seconds after its last heartbeat, has faulted (one more fault) by
/// a tick 6 seconds after it, and is recovering by the tick after that.
pub proof fn escalation_law(h: DeviceHealth, t1: u64, t2: u64, t3: u64)
    requires
        h.state == DeviceState::Nominal,
        h.fault_count < u32::MAX,
        silent_secs(t1, h.last_heartbeat) >= DEGRADED_AFTER_SECS,
        silent_secs(t2, h.last_heartbeat) >= FAULTED_AFTER_SECS,
    ensures
        ticked(h, t1).state == (DeviceState::Degraded { missed: 1 }),
        tick_fits(ticked(h, t1), t2),
        ticked(ticked(h, t1), t2).state == DeviceState::Faulted,
        ticked(ticked(h, t1), t2).fault_count == h.fault_count + 1,
        ticked(ticked(ticked(h, t1), t2), t3).state == DeviceState::Recovering,
        ticked(ticked(ticked(h, t1), t2), t3).last_heartbeat == h.last_heartbeat,
{
}

/// Neither a message nor a watchdog tick lowers a device's fault count, and
/// a tick never moves its last heartbeat.
pub proof fn fault_count_law(h: DeviceHealth, t: MsgType, now: u64)
    requires
        tick_fits(h, now),
    ensures
        received(h, t, now).fault_count == h.fault_count,
        ticked(h, now).fault_count >= h.fault_count,
        ticked(h, now).last_heartbeat == h.last_heartbeat,
{
}

} // verus!
