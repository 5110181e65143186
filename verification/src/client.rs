//! The decisions of the two clients: what a simulated device sends on each
//! tick, and how a monitor reads a command typed by its user.

use vstd::prelude::*;
use crate::text::{chars_equal, chars_of, find_char, index_of, string_of, trim_chars, trimmed};

verus! {

/// Ticks after which a device simulating a fault goes silent.
pub const SILENT_AFTER_TICKS: u32 = 8;

/// How a simulated device starts: its name and whether it simulates a fault.
pub struct DeviceConfig {
    pub device_id: String,
    pub simulate_fault: bool,
}

impl DeviceConfig {
    /// Reads the command line `args` (the program first): the device is
    /// named by the first argument, `device_1` without one, and simulates a
    /// fault where any argument is `--fault`.
    pub fn from_args(args: &Vec<String>) -> (c: DeviceConfig)
        ensures
            c.device_id@ == (if args.len() > 1 { args@[1]@ } else { "device_1"@ }),
            c.simulate_fault == exists|i: int| 0 <= i < args.len() && #[trigger] args@[i]@ == "--fault"@,
    {
        let device_id = if args.len() > 1 {
            args[1].clone()
        } else {
            "device_1".to_owned()
        };
        let flag = "--fault".to_owned();
        let mut simulate_fault = false;
        let mut i: usize = 0;
        while i < args.len()
            invariant
                i <= args.len(),
                flag@ == "--fault"@,
                simulate_fault == exists|j: int| 0 <= j < i && #[trigger] args@[j]@ == "--fault"@,
            decreases args.len() - i,
        {
            if args[i] == flag {
                simulate_fault = true;
            }
            i = i + 1;
        }
        DeviceConfig { device_id, simulate_fault }
    }
}

/// What a simulated device does on one tick.
#[derive(Clone, Copy, Debug, PartialEq, Eq, Structural)]
pub enum TickPlan {
    /// It stays silent, as a crashed device would.
    Silent,
    /// It sends telemetry reporting `rpm`, then a heartbeat where `heartbeat`.
    Report { rpm: u32, heartbeat: bool },
}

/// What a device does on tick number `tick` (counted from 1).
pub open spec fn tick_plan(tick: u32, simulate_fault: bool) -> TickPlan {
    if simulate_fault && tick > SILENT_AFTER_TICKS {
        TickPlan::Silent
    } else {
        TickPlan::Report { rpm: (1000 + (tick * 7) % 500) as u32, heartbeat: tick % 2 == 0 }
    }
}

/// What a device does on tick number `tick`: a device that simulates a
/// fault goes silent after tick 8; otherwise it reports an rpm of
/// `1000 + (7 * tick) mod 500`, and a heartbeat on every second tick.
pub fn device_tick(tick: u32, simulate_fault: bool) -> (p: TickPlan)
    requires
        !(simulate_fault && tick > SILENT_AFTER_TICKS) ==> tick * 7 <= u32::MAX,
    ensures
        p == tick_plan(tick, simulate_fault),
{
    if simulate_fault && tick > SILENT_AFTER_TICKS {
        TickPlan::Silent
    } else {
        TickPlan::Report { rpm: 1000 + (tick * 7) % 500, heartbeat: tick % 2 == 0 }
    }
}

/// What a simulated device does on a tick: it goes silent exactly after
/// tick 8 when it simulates a fault; otherwise it reports an rpm between
/// 1000 and 1499 that is 1000 more than `7 * tick` modulo 500 (so exactly
/// `1000 + 7 * tick` while that is below 1500), with a heartbeat on even
/// ticks and on no two ticks in a row.
pub proof fn device_tick_law(tick: u32, simulate_fault: bool)
    ensures
        tick_plan(tick, simulate_fault) is Silent <==> (simulate_fault && tick > 8),
        tick_plan(tick, simulate_fault) matches TickPlan::Report { rpm, heartbeat } ==> {
            &&& 1000 <= rpm < 1500
            &&& (rpm - 1000 - 7 * tick) % 500 == 0
            &&& 7 * tick < 500 ==> rpm == 1000 + 7 * tick
            &&& heartbeat == (tick % 2 == 0)
        },
        !simulate_fault && tick < u32::MAX ==> (tick_plan(tick, false) matches TickPlan::Report {
            heartbeat: h1,
            ..
        } && tick_plan((tick + 1) as u32, false) matches TickPlan::Report { heartbeat: h2, .. }
            && h1 != h2),
{
    let x: int = 7 * tick;
    assert((x % 500 - x) % 500 == 0) by (nonlinear_arith)
        requires
            x >= 0,
    ;
}

/// A line a monitor's user types, read as `cmd <device_id> <command>`: the
/// trimmed line split at its first two spaces, whose first part is `cmd`.
pub open spec fn command_line_parts(line: Seq<char>) -> Option<(Seq<char>, Seq<char>)> {
    let t = trimmed(line);
    let i = index_of(t, ' ', 0);
    let j = index_of(t, ' ', i + 1);
    if i >= t.len() || j >= t.len() || t.subrange(0, i) != "cmd"@ {
        None
    } else {
        Some((t.subrange(i + 1, j), t.subrange(j + 1, t.len() as int)))
    }
}

/// Reads a line typed by a monitor's user: `Some((device, command))` where
/// it has the form `cmd <device_id> <command>`.
pub fn parse_command_line(line: &str) -> (r: Option<(String, String)>)
    ensures
        match r {
            Some((d, c)) => command_line_parts(line@) == Some((d@, c@)),
            None => command_line_parts(line@) is None,
        },
{
    let v = chars_of(line);
    let t = trim_chars(&v);
    let i = find_char(&t, ' ', 0);
    if i >= t.len() {
        return None;
    }
    let j = find_char(&t, ' ', i + 1);
    if j >= t.len() {
        return None;
    }
    let word = chars_of("cmd");
    if !chars_equal(&t, 0, i, &word) {
        return None;
    }
    let device = string_of(&t, i + 1, j);
    let command = string_of(&t, j + 1, t.len());
    Some((device, command))
}

} // verus!
