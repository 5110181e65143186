//! The broker's state and decisions: which connections are monitors, which
//! connection each device is reached on, the health table of the devices,
//! and how a message from a client, a watchdog tick and a disconnection
//! change them. The sockets themselves stay with the caller, who names each
//! connection by a number.

use vstd::prelude::*;
use crate::clock::Clock;
use crate::health::{
    fresh_health, recovered_from, received, silent_secs, state_text, tick_change, tick_fits, ticked,
    DeviceHealth,
    DeviceState, HealthChange,
};
use crate::message::{
    command_payload_text, command_routing_law, command_target, command_target_text, Message,
    MsgType,
};
use crate::text::{
    chars_of, decimal, decimal_law, is_digit, is_space, push_decimal, spelled_number,
};

verus! {

/// Seconds between two runs of the watchdog.
pub const WATCHDOG_PERIOD_SECS: u64 = 1;

/// Seconds between two status reports.
pub const STATUS_PERIOD_SECS: u64 = 5;

/// The later of two times.
pub open spec fn later(a: u64, b: u64) -> u64 {
    if a >= b { a } else { b }
}

/// Whether no two entries of `ids` are equal.
pub open spec fn distinct(ids: Seq<Seq<char>>) -> bool {
    forall|i: int, j: int| 0 <= i < ids.len() && 0 <= j < ids.len() && i != j ==> ids[i] != ids[j]
}

/// The views of a sequence of strings.
pub open spec fn string_views(v: Seq<String>) -> Seq<Seq<char>> {
    v.map_values(|s: String| s@)
}

/// The view of an optional string.
pub open spec fn opt_view(o: Option<String>) -> Option<Seq<char>> {
    match o {
        Some(s) => Some(s@),
        None => None,
    }
}

/// Whether `m` is a monitor asking to be registered.
pub open spec fn is_monitor_registration(m: Message) -> bool {
    &&& m.device_id@ == "monitor"@
    &&& m.msg_type == MsgType::Command
    &&& m.payload@ == "register"@
}

/// One connected client as the broker sees it: the number its caller gives
/// the connection, and the device that registered on it, once one has.
pub struct Session {
    pub conn: u64,
    pub device_id: Option<String>,
}

/// What the broker decided about a message from a client.
pub enum Dispatch {
    /// The connection is now a monitor.
    MonitorRegistered,
    /// A command: the device its payload names, and the connection that
    /// device is reached on, where one is registered. The message then goes
    /// to every monitor.
    Command { target: Option<String>, route: Option<u64> },
    /// A device's report: whether it registered the device on this
    /// connection, and the state a heartbeat brought the device back from.
    /// The message then goes to every monitor.
    Device { registered: bool, recovered_from: Option<DeviceState> },
}

/// A change that a watchdog tick made to one device.
pub struct WatchdogReport {
    pub device_id: String,
    pub change: HealthChange,
}

/// The changes a watchdog tick at `now` reports for the devices `ids` with
/// the records `hs`, in table order.
pub open spec fn tick_reports(ids: Seq<Seq<char>>, hs: Seq<DeviceHealth>, now: u64) -> Seq<
    (Seq<char>, HealthChange),
>
    decreases hs.len(),
{
    if hs.len() == 0 {
        Seq::empty()
    } else {
        let n = hs.len() - 1;
        let before = tick_reports(ids.take(n), hs.take(n), now);
        match tick_change(hs[n], now) {
            Some(c) => before.push((ids[n], c)),
            None => before,
        }
    }
}

/// The views of watchdog reports: device and change.
pub open spec fn report_views(v: Seq<WatchdogReport>) -> Seq<(Seq<char>, HealthChange)> {
    v.map_values(|r: WatchdogReport| (r.device_id@, r.change))
}

/// The monitors of `ms` whose delivery succeeded, in order.
pub open spec fn kept_monitors(ms: Seq<u64>, delivered: Seq<bool>) -> Seq<u64>
    decreases ms.len(),
{
    if ms.len() == 0 {
        Seq::empty()
    } else {
        let n = ms.len() - 1;
        let before = kept_monitors(ms.take(n), delivered.take(n));
        if delivered[n] {
            before.push(ms[n])
        } else {
            before
        }
    }
}

/// `text` padded with spaces on the right to `width` characters.
pub open spec fn padded(text: Seq<char>, width: nat) -> Seq<char> {
    if text.len() >= width {
        text
    } else {
        text + Seq::new((width - text.len()) as nat, |i: int| ' ')
    }
}

/// The line that shows one device in the status report.
pub open spec fn device_line(id: Seq<char>, h: DeviceHealth) -> Seq<char> {
    "  Device "@ + padded(id, 12) + " : "@ + state_text(h.state)
}

/// Appends `text` padded with spaces on the right to `width` characters.
fn push_padded(out: &mut String, text: &str, width: usize)
    ensures
        final(out)@ == old(out)@ + padded(text@, width as nat),
{
    let n = chars_of(text).len();
    out.push_str(text);
    let ghost base = out@;
    let mut k = n;
    while k < width
        invariant
            n == text@.len(),
            n <= k,
            k <= width || k == n,
            base == old(out)@ + text@,
            out@ == base + Seq::new((k - n) as nat, |i: int| ' '),
        decreases width - k,
    {
        out.push(' ');
        assert(out@ =~= base + Seq::new((k + 1 - n) as nat, |i: int| ' '));
        k = k + 1;
    }
    assert(out@ =~= old(out)@ + padded(text@, width as nat));
}

/// The broker's state.
pub struct BrokerState {
    clock: Clock,
    monitors: Vec<u64>,
    route_ids: Vec<String>,
    route_conns: Vec<u64>,
    device_ids: Vec<String>,
    healths: Vec<DeviceHealth>,
    msg_count: u64,
    latest: u64,
}

impl BrokerState {
    /// The connections that are monitors, in registration order.
    pub closed spec fn monitor_list(&self) -> Seq<u64> {
        self.monitors@
    }

    /// The devices that have a route, in registration order.
    pub closed spec fn routed_ids(&self) -> Seq<Seq<char>> {
        string_views(self.route_ids@)
    }

    /// The connection of each routed device, parallel to `routed_ids`.
    pub closed spec fn routed_conns(&self) -> Seq<u64> {
        self.route_conns@
    }

    /// The devices in the health table, in the order they were first heard of.
    pub closed spec fn health_ids(&self) -> Seq<Seq<char>> {
        string_views(self.device_ids@)
    }

    /// The health record of each device, parallel to `health_ids`.
    pub closed spec fn health_records(&self) -> Seq<DeviceHealth> {
        self.healths@
    }

    /// The number of device messages recorded.
    pub closed spec fn routed_count(&self) -> u64 {
        self.msg_count
    }

    /// The latest time the broker has acted at, in nanoseconds on its clock.
    pub closed spec fn clock_time(&self) -> u64 {
        self.latest
    }

    /// The tables are parallel and no device appears twice in either.
    pub open spec fn wf(&self) -> bool {
        &&& self.routed_ids().len() == self.routed_conns().len()
        &&& self.health_ids().len() == self.health_records().len()
        &&& distinct(self.routed_ids())
        &&& distinct(self.health_ids())
    }

    /// Whether `route` is the connection that device `id` is routed to.
    pub open spec fn routes_to(&self, id: Seq<char>, route: Option<u64>) -> bool {
        &&& forall|i: int|
            0 <= i < self.routed_ids().len() && self.routed_ids()[i] == id ==> route == Some(
                #[trigger] self.routed_conns()[i],
            )
        &&& (forall|i: int| 0 <= i < self.routed_ids().len() ==> self.routed_ids()[i] != id)
            ==> route is None
    }

    /// The route table of `after` is that of `self` with `id` sent to `conn`.
    pub open spec fn sets_route(&self, after: &Self, id: Seq<char>, conn: u64) -> bool {
        &&& forall|i: int|
            0 <= i < self.routed_ids().len() && self.routed_ids()[i] == id ==> {
                &&& after.routed_ids() == self.routed_ids()
                &&& after.routed_conns() == self.routed_conns().update(i, conn)
            }
        &&& (forall|i: int| 0 <= i < self.routed_ids().len() ==> self.routed_ids()[i] != id)
            ==> {
            &&& after.routed_ids() == self.routed_ids().push(id)
            &&& after.routed_conns() == self.routed_conns().push(conn)
        }
    }

    /// The route tables of `self` and `after` are the same.
    pub open spec fn same_routes(&self, after: &Self) -> bool {
        &&& after.routed_ids() == self.routed_ids()
        &&& after.routed_conns() == self.routed_conns()
    }

    /// The health tables of `self` and `after` are the same.
    pub open spec fn same_health(&self, after: &Self) -> bool {
        &&& after.health_ids() == self.health_ids()
        &&& after.health_records() == self.health_records()
        &&& after.routed_count() == self.routed_count()
    }

    /// `after` is `self` once a message of kind `t` from device `id` has
    /// been recorded at `now`, and `back` is the state a heartbeat brought
    /// the device back from.
    pub open spec fn records(
        &self,
        after: &Self,
        id: Seq<char>,
        t: MsgType,
        now: u64,
        back: Option<DeviceState>,
    ) -> bool {
        &&& after.routed_count() == self.routed_count() + 1
        &&& forall|i: int|
            0 <= i < self.health_ids().len() && self.health_ids()[i] == id ==> {
                &&& after.health_ids() == self.health_ids()
                &&& after.health_records() == self.health_records().update(
                    i,
                    received(#[trigger] self.health_records()[i], t, now),
                )
                &&& back == recovered_from(self.health_records()[i], t)
            }
        &&& (forall|i: int| 0 <= i < self.health_ids().len() ==> self.health_ids()[i] != id)
            ==> {
            &&& after.health_ids() == self.health_ids().push(id)
            &&& after.health_records() == self.health_records().push(fresh_health(now))
            &&& back is None
        }
    }

    /// Whether every degraded device's counters can take one more tick.
    pub open spec fn ticks_fit(&self) -> bool {
        forall|i: int|
            0 <= i < self.health_records().len() ==> match #[trigger] self.health_records()[i].state {
                DeviceState::Degraded { missed } => missed < u32::MAX
                    && self.health_records()[i].fault_count < u32::MAX,
                _ => true,
            }
    }

    /// `after` is `self` once a watchdog tick at `now` has run, and
    /// `reports` are the changes it reports.
    pub open spec fn ticks(&self, after: &Self, now: u64, reports: Seq<(Seq<char>, HealthChange)>) -> bool {
        &&& after.health_ids() == self.health_ids()
        &&& after.health_records().len() == self.health_records().len()
        &&& forall|i: int|
            0 <= i < self.health_records().len() ==> after.health_records()[i] == ticked(
                #[trigger] self.health_records()[i],
                now,
            )
        &&& reports == tick_reports(self.health_ids(), self.health_records(), now)
        &&& after.routed_count() == self.routed_count()
        &&& after.monitor_list() == self.monitor_list()
        &&& self.same_routes(after)
    }

    /// The lines of the status report.
    pub open spec fn status_text(&self) -> Seq<Seq<char>> {
        seq![
            "=== Broker Status ==="@,
            "  Messages routed : "@ + decimal(self.routed_count() as nat),
            "  Monitors connected : "@ + decimal(self.monitor_list().len()),
        ] + Seq::new(
            self.health_ids().len(),
            |i: int| device_line(self.health_ids()[i], self.health_records()[i]),
        ) + seq!["====================="@]
    }

    /// An empty broker whose clock starts now.
    pub fn new() -> (b: BrokerState)
        ensures
            b.wf(),
            b.monitor_list() == Seq::<u64>::empty(),
            b.routed_ids() == Seq::<Seq<char>>::empty(),
            b.health_ids() == Seq::<Seq<char>>::empty(),
            b.routed_count() == 0,
            b.clock_time() == 0,
    {
        let b = BrokerState {
            clock: Clock::start(),
            monitors: Vec::new(),
            route_ids: Vec::new(),
            route_conns: Vec::new(),
            device_ids: Vec::new(),
            healths: Vec::new(),
            msg_count: 0,
            latest: 0,
        };
        assert(b.routed_ids() =~= Seq::<Seq<char>>::empty());
        assert(b.health_ids() =~= Seq::<Seq<char>>::empty());
        b
    }

    /// The number of device messages recorded.
    pub fn msg_count(&self) -> (n: u64)
        ensures
            n == self.routed_count(),
    {
        self.msg_count
    }

    /// The connections that are monitors, in registration order.
    pub fn monitors(&self) -> (m: &Vec<u64>)
        ensures
            m@ == self.monitor_list(),
    {
        &self.monitors
    }

    /// Moves the broker's time forward to `now`, where `now` is later.
    fn advance_to(&mut self, now: u64)
        requires
            old(self).wf(),
        ensures
            final(self).wf(),
            final(self).clock_time() == later(old(self).clock_time(), now),
            old(self).same_routes(&*final(self)),
            old(self).same_health(&*final(self)),
            final(self).monitor_list() == old(self).monitor_list(),
            final(self).monitors@ == old(self).monitors@,
            final(self).route_ids@ == old(self).route_ids@,
            final(self).route_conns@ == old(self).route_conns@,
            final(self).device_ids@ == old(self).device_ids@,
            final(self).healths@ == old(self).healths@,
            final(self).msg_count == old(self).msg_count,
    {
        if now > self.latest {
            self.latest = now;
        }
    }

    /// The broker's clock now, never earlier than a time it has acted at.
    fn current_time(&self) -> (now: u64)
        ensures
            now >= self.clock_time(),
    {
        let reading = self.clock.now_ns();
        if reading > self.latest {
            reading
        } else {
            self.latest
        }
    }

    /// Records a message of kind `t` from device `device_id` that arrived at
    /// `now`: a device first heard of gets a nominal record, a heartbeat
    /// brings its device back to nominal. Returns the state a heartbeat
    /// brought the device back from.
    pub fn record_message_at(&mut self, device_id: &str, t: MsgType, now: u64) -> (back: Option<
        DeviceState,
    >)
        requires
            old(self).wf(),
            old(self).routed_count() < u64::MAX,
        ensures
            final(self).wf(),
            old(self).records(&*final(self), device_id@, t, now, back),
            final(self).monitor_list() == old(self).monitor_list(),
            old(self).same_routes(&*final(self)),
            final(self).clock_time() == later(old(self).clock_time(), now),
    {
        self.advance_to(now);
        let key = device_id.to_owned();
        let back = match position(&self.device_ids, &key) {
            Some(i) => {
                let mut h = self.healths[i];
                let back = h.receive(t, now);
                self.healths.set(i, h);
                back
            },
            None => {
                let ghost ids0 = string_views(self.device_ids@);
                self.device_ids.push(key);
                self.healths.push(DeviceHealth::started_at(now));
                assert(string_views(self.device_ids@) =~= ids0.push(device_id@));
                None
            },
        };
        self.msg_count = self.msg_count + 1;
        back
    }

    /// Records a message of kind `t` from device `device_id` at the current
    /// time of the broker's clock, as `record_message_at` does.
    pub fn record_message(&mut self, device_id: &str, t: MsgType) -> (back: Option<DeviceState>)
        requires
            old(self).wf(),
            old(self).routed_count() < u64::MAX,
        ensures
            final(self).wf(),
            exists|now: u64|
                {
                    &&& now >= old(self).clock_time()
                    &&& final(self).clock_time() == now
                    &&& #[trigger] old(self).records(&*final(self), device_id@, t, now, back)
                },
            final(self).monitor_list() == old(self).monitor_list(),
            old(self).same_routes(&*final(self)),
    {
        let now = self.current_time();
        self.record_message_at(device_id, t, now)
    }

    /// Runs the watchdog over every device at `now`: a nominal device silent
    /// for 3 seconds is degraded, a degraded one silent for 6 seconds has
    /// faulted (and its fault count grows), a faulted one is recovering, a
    /// recovering one waits for a heartbeat. Returns the changes to report,
    /// in table order.
    pub fn run_watchdog_at(&mut self, now: u64) -> (reports: Vec<WatchdogReport>)
        requires
            old(self).wf(),
            forall|i: int|
                0 <= i < old(self).health_records().len() ==> tick_fits(
                    #[trigger] old(self).health_records()[i],
                    now,
                ),
        ensures
            final(self).wf(),
            old(self).ticks(&*final(self), now, report_views(reports@)),
            final(self).clock_time() == later(old(self).clock_time(), now),
    {
        self.advance_to(now);
        let ghost ids = string_views(self.device_ids@);
        let ghost hs = self.healths@;
        let mut reports: Vec<WatchdogReport> = Vec::new();
        let n = self.healths.len();
        let mut i: usize = 0;
        while i < n
            invariant
                n == self.healths@.len(),
                n == hs.len(),
                ids.len() == hs.len(),
                ids == string_views(self.device_ids@),
                hs == old(self).health_records(),
                ids == old(self).health_ids(),
                i <= n,
                forall|j: int| 0 <= j < hs.len() ==> tick_fits(#[trigger] hs[j], now),
                forall|j: int| 0 <= j < i ==> self.healths@[j] == ticked(#[trigger] hs[j], now),
                forall|j: int| i <= j < n ==> self.healths@[j] == #[trigger] hs[j],
                report_views(reports@) == tick_reports(ids.take(i as int), hs.take(i as int), now),
                self.monitors@ == old(self).monitors@,
                self.route_ids@ == old(self).route_ids@,
                self.route_conns@ == old(self).route_conns@,
                self.msg_count == old(self).msg_count,
                self.device_ids@ == old(self).device_ids@,
                self.latest == later(old(self).latest, now),
            decreases n - i,
        {
            let mut h = self.healths[i];
            assert(h == hs[i as int]);
            let change = h.tick(now);
            self.healths.set(i, h);
            assert(ids.take(i + 1).take(i as int) =~= ids.take(i as int));
            assert(hs.take(i + 1).take(i as int) =~= hs.take(i as int));
            match change {
                Some(c) => {
                    let id = self.device_ids[i].clone();
                    reports.push(WatchdogReport { device_id: id, change: c });
                    assert(report_views(reports@) =~= tick_reports(
                        ids.take(i + 1),
                        hs.take(i + 1),
                        now,
                    ));
                },
                None => {
                    assert(report_views(reports@) =~= tick_reports(
                        ids.take(i + 1),
                        hs.take(i + 1),
                        now,
                    ));
                },
            }
            i = i + 1;
        }
        assert(ids.take(n as int) =~= ids);
        assert(hs.take(n as int) =~= hs);
        reports
    }

    /// Whether every degraded device's counters can take one more watchdog
    /// tick, whenever it runs.
    pub fn watchdog_can_run(&self) -> (b: bool)
        requires
            self.wf(),
        ensures
            b == self.ticks_fit(),
    {
        let n = self.healths.len();
        let mut i: usize = 0;
        while i < n
            invariant
                n == self.health_records().len(),
                i <= n,
                forall|j: int|
                    0 <= j < i ==> match #[trigger] self.health_records()[j].state {
                        DeviceState::Degraded { missed } => missed < u32::MAX
                            && self.health_records()[j].fault_count < u32::MAX,
                        _ => true,
                    },
            decreases n - i,
        {
            let h = self.healths[i];
            match h.state {
                DeviceState::Degraded { missed } => {
                    if missed == u32::MAX || h.fault_count == u32::MAX {
                        return false;
                    }
                },
                _ => {},
            }
            i = i + 1;
        }
        true
    }

    /// Runs the watchdog at the current time of the broker's clock, as
    /// `run_watchdog_at` does.
    pub fn run_watchdog(&mut self) -> (reports: Vec<WatchdogReport>)
        requires
            old(self).wf(),
            old(self).ticks_fit(),
        ensures
            final(self).wf(),
            exists|now: u64|
                {
                    &&& now >= old(self).clock_time()
                    &&& final(self).clock_time() == now
                    &&& #[trigger] old(self).ticks(&*final(self), now, report_views(reports@))
                },
    {
        let now = self.current_time();
        assert forall|i: int| 0 <= i < self.health_records().len() implies tick_fits(
            #[trigger] self.health_records()[i],
            now,
        ) by {
            match self.health_records()[i].state {
                DeviceState::Degraded { .. } => {},
                _ => {},
            }
        }
        self.run_watchdog_at(now)
    }

    /// Sends device `key` to connection `conn`, replacing any route it had.
    fn set_route(&mut self, key: String, conn: u64)
        requires
            old(self).wf(),
        ensures
            final(self).wf(),
            old(self).sets_route(&*final(self), key@, conn),
            old(self).same_health(&*final(self)),
            final(self).clock_time() == old(self).clock_time(),
            final(self).monitor_list() == old(self).monitor_list(),
    {
        match position(&self.route_ids, &key) {
            Some(i) => {
                self.route_conns.set(i, conn);
            },
            None => {
                let ghost ids0 = string_views(self.route_ids@);
                let ghost k = key@;
                self.route_ids.push(key);
                self.route_conns.push(conn);
                assert(string_views(self.route_ids@) =~= ids0.push(k));
            },
        }
    }

    /// The connection device `id` is routed to, if it has a route.
    pub fn route_of(&self, id: &str) -> (r: Option<u64>)
        requires
            self.wf(),
        ensures
            self.routes_to(id@, r),
    {
        let key = id.to_owned();
        match position(&self.route_ids, &key) {
            Some(i) => Some(self.route_conns[i]),
            None => None,
        }
    }

    /// The health record of device `id`, if the broker has heard of it.
    pub fn health_of(&self, id: &str) -> (r: Option<DeviceHealth>)
        requires
            self.wf(),
        ensures
            forall|i: int|
                0 <= i < self.health_ids().len() && self.health_ids()[i] == id@ ==> r == Some(
                    #[trigger] self.health_records()[i],
                ),
            (forall|i: int| 0 <= i < self.health_ids().len() ==> self.health_ids()[i] != id@)
                ==> r is None,
    {
        let key = id.to_owned();
        match position(&self.device_ids, &key) {
            Some(i) => Some(self.healths[i]),
            None => None,
        }
    }

    /// Decides what a message `msg` from the client of `session`, arriving
    /// at `now`, does. A monitor's registration makes the connection a
    /// monitor. A command is routed to the device its payload names. Any
    /// other message is a device's report: the first one on a connection
    /// registers its sender there, and each is recorded in the health table.
    pub fn handle_message_at(&mut self, session: &mut Session, msg: &Message, now: u64) -> (d:
        Dispatch)
        requires
            old(self).wf(),
            msg.msg_type != MsgType::Command ==> old(self).routed_count() < u64::MAX,
        ensures
            final(self).wf(),
            final(session).conn == old(session).conn,
            final(self).clock_time() == later(old(self).clock_time(), now),
            is_monitor_registration(*msg) ==> {
                &&& d is MonitorRegistered
                &&& final(self).monitor_list() == old(self).monitor_list().push(old(session).conn)
                &&& old(self).same_routes(&*final(self))
                &&& old(self).same_health(&*final(self))
                &&& opt_view(final(session).device_id) == opt_view(old(session).device_id)
            },
            !is_monitor_registration(*msg) && msg.msg_type == MsgType::Command ==> {
                &&& d matches Dispatch::Command { target, route } && {
                    &&& opt_view(target) == command_target_text(msg.payload@)
                    &&& match target {
                        Some(t) => old(self).routes_to(t@, route),
                        None => route is None,
                    }
                }
                &&& final(self).monitor_list() == old(self).monitor_list()
                &&& old(self).same_routes(&*final(self))
                &&& old(self).same_health(&*final(self))
                &&& opt_view(final(session).device_id) == opt_view(old(session).device_id)
            },
            msg.msg_type != MsgType::Command ==> {
                &&& d matches Dispatch::Device { registered, recovered_from: back } && {
                    &&& registered == (old(session).device_id is None)
                    &&& old(self).records(&*final(self), msg.device_id@, msg.msg_type, now, back)
                }
                &&& final(self).monitor_list() == old(self).monitor_list()
                &&& old(session).device_id is None ==> {
                    &&& old(self).sets_route(&*final(self), msg.device_id@, old(session).conn)
                    &&& opt_view(final(session).device_id) == Some(msg.device_id@)
                }
                &&& old(session).device_id is Some ==> {
                    &&& old(self).same_routes(&*final(self))
                    &&& opt_view(final(session).device_id) == opt_view(old(session).device_id)
                }
            },
    {
        self.advance_to(now);
        let monitor_name = "monitor".to_owned();
        let register_word = "register".to_owned();
        if msg.device_id == monitor_name && msg.msg_type == MsgType::Command && msg.payload
            == register_word {
            self.monitors.push(session.conn);
            return Dispatch::MonitorRegistered;
        }
        if msg.msg_type == MsgType::Command {
            let target = command_target(msg.payload.as_str());
            let route = match &target {
                Some(t) => self.route_of(t.as_str()),
                None => None,
            };
            return Dispatch::Command { target, route };
        }
        let registered = session.device_id.is_none();
        if registered {
            self.set_route(msg.device_id.clone(), session.conn);
            session.device_id = Some(msg.device_id.clone());
        }
        let back = self.record_message_at(msg.device_id.as_str(), msg.msg_type, now);
        Dispatch::Device { registered, recovered_from: back }
    }

    /// Decides what a message does, as `handle_message_at` does, at the
    /// current time of the broker's clock.
    pub fn handle_message(&mut self, session: &mut Session, msg: &Message) -> (d: Dispatch)
        requires
            old(self).wf(),
            msg.msg_type != MsgType::Command ==> old(self).routed_count() < u64::MAX,
        ensures
            final(self).wf(),
            final(session).conn == old(session).conn,
            final(self).clock_time() >= old(self).clock_time(),
            is_monitor_registration(*msg) ==> {
                &&& d is MonitorRegistered
                &&& final(self).monitor_list() == old(self).monitor_list().push(old(session).conn)
                &&& old(self).same_routes(&*final(self))
                &&& old(self).same_health(&*final(self))
                &&& opt_view(final(session).device_id) == opt_view(old(session).device_id)
            },
            !is_monitor_registration(*msg) && msg.msg_type == MsgType::Command ==> {
                &&& d matches Dispatch::Command { target, route } && {
                    &&& opt_view(target) == command_target_text(msg.payload@)
                    &&& match target {
                        Some(t) => old(self).routes_to(t@, route),
                        None => route is None,
                    }
                }
                &&& final(self).monitor_list() == old(self).monitor_list()
                &&& old(self).same_routes(&*final(self))
                &&& old(self).same_health(&*final(self))
                &&& opt_view(final(session).device_id) == opt_view(old(session).device_id)
            },
            msg.msg_type != MsgType::Command ==> {
                &&& d matches Dispatch::Device { registered, recovered_from: back } && {
                    &&& registered == (old(session).device_id is None)
                    &&& exists|now: u64|
                        {
                            &&& now >= old(self).clock_time()
                            &&& final(self).clock_time() == now
                            &&& #[trigger] old(self).records(
                                &*final(self),
                                msg.device_id@,
                                msg.msg_type,
                                now,
                                back,
                            )
                        }
                }
            },
            msg.msg_type != MsgType::Command ==> {
                &&& final(self).monitor_list() == old(self).monitor_list()
                &&& old(session).device_id is None ==> {
                    &&& old(self).sets_route(&*final(self), msg.device_id@, old(session).conn)
                    &&& opt_view(final(session).device_id) == Some(msg.device_id@)
                }
                &&& old(session).device_id is Some ==> {
                    &&& old(self).same_routes(&*final(self))
                    &&& opt_view(final(session).device_id) == opt_view(old(session).device_id)
                }
            },
    {
        let now = self.current_time();
        self.handle_message_at(session, msg, now)
    }

    /// Forgets the route of the device registered on `session`, whose client
    /// has gone; returns that device.
    pub fn close_session(&mut self, session: &Session) -> (gone: Option<String>)
        requires
            old(self).wf(),
        ensures
            final(self).wf(),
            opt_view(gone) == opt_view(session.device_id),
            old(self).same_health(&*final(self)),
            final(self).monitor_list() == old(self).monitor_list(),
            match session.device_id {
                None => old(self).same_routes(&*final(self)),
                Some(id) => {
                    &&& forall|i: int|
                        0 <= i < old(self).routed_ids().len() && old(self).routed_ids()[i] == id@
                            ==> {
                            &&& final(self).routed_ids() == old(self).routed_ids().remove(i)
                            &&& final(self).routed_conns() == old(self).routed_conns().remove(i)
                        }
                    &&& (forall|i: int|
                        0 <= i < old(self).routed_ids().len() ==> old(self).routed_ids()[i]
                            != id@) ==> old(self).same_routes(&*final(self))
                },
            },
    {
        match &session.device_id {
            None => None,
            Some(id) => {
                match position(&self.route_ids, id) {
                    Some(i) => {
                        let ghost ids0 = string_views(self.route_ids@);
                        self.route_ids.remove(i);
                        self.route_conns.remove(i);
                        assert(string_views(self.route_ids@) =~= ids0.remove(i as int));
                    },
                    None => {},
                }
                Some(id.clone())
            },
        }
    }

    /// Keeps the monitors whose delivery succeeded: `delivered[i]` tells
    /// whether the message reached the `i`-th monitor.
    pub fn retain_monitors(&mut self, delivered: &Vec<bool>)
        requires
            old(self).wf(),
            delivered.len() == old(self).monitor_list().len(),
        ensures
            final(self).wf(),
            final(self).monitor_list() == kept_monitors(old(self).monitor_list(), delivered@),
            old(self).same_routes(&*final(self)),
            old(self).same_health(&*final(self)),
    {
        let ghost ms = self.monitors@;
        let mut kept: Vec<u64> = Vec::new();
        let n = self.monitors.len();
        let mut i: usize = 0;
        while i < n
            invariant
                n == ms.len(),
                n == delivered.len(),
                ms == self.monitors@,
                i <= n,
                kept@ == kept_monitors(ms.take(i as int), delivered@.take(i as int)),
            decreases n - i,
        {
            if delivered[i] {
                kept.push(self.monitors[i]);
            }
            assert(ms.take(i + 1).take(i as int) =~= ms.take(i as int));
            assert(delivered@.take(i + 1).take(i as int) =~= delivered@.take(i as int));
            i = i + 1;
        }
        assert(ms.take(n as int) =~= ms);
        assert(delivered@.take(n as int) =~= delivered@);
        self.monitors = kept;
    }

    /// The status report, line by line: messages routed, monitors connected,
    /// and the state of each device.
    pub fn status_report(&self) -> (lines: Vec<String>)
        requires
            self.wf(),
        ensures
            string_views(lines@) == self.status_text(),
    {
        let mut lines: Vec<String> = Vec::new();
        lines.push("=== Broker Status ===".to_owned());
        let mut routed = "  Messages routed : ".to_owned();
        push_decimal(&mut routed, self.msg_count);
        lines.push(routed);
        let mut connected = "  Monitors connected : ".to_owned();
        push_decimal(&mut connected, self.monitors.len() as u64);
        lines.push(connected);
        let ghost head = string_views(lines@);
        let n = self.healths.len();
        let mut i: usize = 0;
        while i < n
            invariant
                n == self.health_records().len(),
                n == self.health_ids().len(),
                i <= n,
                head.len() == 3,
                string_views(lines@) == head + Seq::new(
                    i as nat,
                    |j: int| device_line(self.health_ids()[j], self.health_records()[j]),
                ),
            decreases n - i,
        {
            let mut line = "  Device ".to_owned();
            push_padded(&mut line, self.device_ids[i].as_str(), 12);
            line.push_str(" : ");
            let state = self.healths[i].state.to_string();
            line.push_str(state.as_str());
            assert(self.health_ids()[i as int] == self.device_ids@[i as int]@);
            assert(line@ == device_line(self.health_ids()[i as int], self.health_records()[i as int]));
            let ghost before = lines@;
            lines.push(line);
            assert(lines@ == before.push(line));
            assert(string_views(lines@) =~= string_views(before).push(line@));
            assert(string_views(lines@) =~= head + Seq::new(
                (i + 1) as nat,
                |j: int| device_line(self.health_ids()[j], self.health_records()[j]),
            ));
            i = i + 1;
        }
        let ghost before = lines@;
        let footer = "=====================".to_owned();
        lines.push(footer);
        assert(string_views(lines@) =~= string_views(before).push(footer@));
        assert(string_views(lines@) =~= self.status_text());
        lines
    }
}

/// The index of `key` in `ids`, if it is there.
fn position(ids: &Vec<String>, key: &String) -> (r: Option<usize>)
    ensures
        match r {
            Some(i) => i < ids.len() && string_views(ids@)[i as int] == key@,
            None => forall|i: int| 0 <= i < ids.len() ==> string_views(ids@)[i] != key@,
        },
{
    let n = ids.len();
    let mut i: usize = 0;
    while i < n
        invariant
            n == ids.len(),
            i <= n,
            forall|j: int| 0 <= j < i ==> string_views(ids@)[j] != key@,
        decreases n - i,
    {
        if ids[i] == *key {
            return Some(i);
        }
        i = i + 1;
    }
    None
}


/// Whatever state a device was in, once the broker records a heartbeat from
/// it the device is in the table, nominal, with its silence restarted at the
/// heartbeat's arrival; the table keeps every other device as it was.
pub proof fn heartbeat_recovery_law(
    before: &BrokerState,
    after: &BrokerState,
    id: Seq<char>,
    now: u64,
    back: Option<DeviceState>,
)
    requires
        before.wf(),
        after.wf(),
        before.records(after, id, MsgType::Heartbeat, now, back),
    ensures
        exists|i: int| 0 <= i < after.health_ids().len() && after.health_ids()[i] == id,
        forall|i: int|
            0 <= i < after.health_ids().len() && after.health_ids()[i] == id ==> {
                &&& (#[trigger] after.health_records()[i]).state == DeviceState::Nominal
                &&& after.health_records()[i].last_heartbeat == now
            },
        forall|i: int|
            0 <= i < before.health_ids().len() && before.health_ids()[i] != id ==> {
                &&& after.health_ids()[i] == before.health_ids()[i]
                &&& after.health_records()[i] == #[trigger] before.health_records()[i]
            },
        after.routed_count() == before.routed_count() + 1,
{
    if exists|i: int| 0 <= i < before.health_ids().len() && before.health_ids()[i] == id {
        let i = choose|i: int| 0 <= i < before.health_ids().len() && before.health_ids()[i] == id;
        assert(after.health_records()[i] == received(before.health_records()[i], MsgType::Heartbeat, now));
        assert(after.health_ids()[i] == id);
    } else {
        let n = before.health_ids().len() as int;
        assert(after.health_ids()[n] == id);
    }
}

/// Once a device has registered on a connection, a command naming that
/// device is routed to that connection.
pub proof fn registration_routes_law(before: &BrokerState, after: &BrokerState, id: Seq<char>, conn: u64)
    requires
        before.wf(),
        after.wf(),
        before.sets_route(after, id, conn),
    ensures
        after.routes_to(id, Some(conn)),
{
    if exists|i: int| 0 <= i < before.routed_ids().len() && before.routed_ids()[i] == id {
        let i = choose|i: int| 0 <= i < before.routed_ids().len() && before.routed_ids()[i] == id;
        assert(after.routed_ids()[i] == id);
        assert(after.routed_conns()[i] == conn);
    } else {
        let n = before.routed_ids().len() as int;
        assert(after.routed_ids()[n] == id);
        assert(after.routed_conns()[n] == conn);
    }
}

/// A command that a monitor builds for a device (a target without white
/// space and any command), handled after the device registered on a
/// connection, names that device and is routed to that connection.
pub proof fn command_delivery_law(
    before: &BrokerState,
    after: &BrokerState,
    device: Seq<char>,
    command: Seq<char>,
    conn: u64,
    target: Option<Seq<char>>,
    route: Option<u64>,
)
    requires
        before.wf(),
        after.wf(),
        before.sets_route(after, device, conn),
        forall|k: int| 0 <= k < device.len() ==> !is_space(#[trigger] device[k]),
        target == command_target_text(command_payload_text(device, command)),
        match target {
            Some(t) => after.routes_to(t, route),
            None => route is None,
        },
    ensures
        target == Some(device),
        route == Some(conn),
{
    command_routing_law(device, command);
    registration_routes_law(before, after, device, conn);
    if exists|i: int| 0 <= i < after.routed_ids().len() && after.routed_ids()[i] == device {
        let i = choose|i: int| 0 <= i < after.routed_ids().len() && after.routed_ids()[i] == device;
        assert(route == Some(after.routed_conns()[i]));
    }
}

/// Once the connection a device registered on has closed, a command naming
/// that device finds no route.
pub proof fn disconnect_unroutes_law(before: &BrokerState, after: &BrokerState, id: Seq<char>)
    requires
        before.wf(),
        after.wf(),
        forall|i: int|
            0 <= i < before.routed_ids().len() && before.routed_ids()[i] == id ==> {
                &&& after.routed_ids() == before.routed_ids().remove(i)
                &&& after.routed_conns() == before.routed_conns().remove(i)
            },
        (forall|i: int| 0 <= i < before.routed_ids().len() ==> before.routed_ids()[i] != id)
            ==> before.same_routes(after),
    ensures
        after.routes_to(id, None),
{
    if exists|i: int| 0 <= i < before.routed_ids().len() && before.routed_ids()[i] == id {
        let i = choose|i: int| 0 <= i < before.routed_ids().len() && before.routed_ids()[i] == id;
        assert forall|k: int| 0 <= k < after.routed_ids().len() implies after.routed_ids()[k] != id by {
            if k < i {
                assert(after.routed_ids()[k] == before.routed_ids()[k]);
            } else {
                assert(after.routed_ids()[k] == before.routed_ids()[k + 1]);
            }
        }
    }
}

/// A watchdog tick changes no device's last heartbeat and lowers no fault
/// count, and keeps the set of known devices, the routes, the monitors and
/// the message count.
pub proof fn watchdog_keeps_law(
    before: &BrokerState,
    after: &BrokerState,
    now: u64,
    reports: Seq<(Seq<char>, HealthChange)>,
)
    requires
        before.wf(),
        forall|i: int|
            0 <= i < before.health_records().len() ==> tick_fits(
                #[trigger] before.health_records()[i],
                now,
            ),
        before.ticks(after, now, reports),
    ensures
        after.health_ids() == before.health_ids(),
        forall|i: int|
            0 <= i < before.health_records().len() ==> {
                &&& (#[trigger] after.health_records()[i]).last_heartbeat
                    == before.health_records()[i].last_heartbeat
                &&& after.health_records()[i].fault_count >= before.health_records()[i].fault_count
            },
        before.same_routes(after),
        after.monitor_list() == before.monitor_list(),
        after.routed_count() == before.routed_count(),
{
    assert forall|i: int| 0 <= i < before.health_records().len() implies {
        &&& (#[trigger] after.health_records()[i]).last_heartbeat
            == before.health_records()[i].last_heartbeat
        &&& after.health_records()[i].fault_count >= before.health_records()[i].fault_count
    } by {
        crate::health::fault_count_law(before.health_records()[i], MsgType::Telemetry, now);
    }
}


/// The number of `true` entries in `s`.
pub open spec fn count_true(s: Seq<bool>) -> nat
    decreases s.len(),
{
    if s.len() == 0 {
        0
    } else {
        count_true(s.drop_last()) + (if s.last() { 1nat } else { 0nat })
    }
}

/// Whether `x` is a monitor of `ms` whose delivery succeeded.
pub open spec fn is_delivered_monitor(ms: Seq<u64>, delivered: Seq<bool>, x: u64) -> bool {
    exists|i: int| 0 <= i < ms.len() && delivered[i] && ms[i] == x
}

/// Dropping the monitors whose delivery failed keeps exactly the delivered
/// ones, in order: one entry per `true` in `delivered`, each delivered
/// monitor among them, and every one kept a delivered monitor.
pub proof fn retain_monitors_law(ms: Seq<u64>, delivered: Seq<bool>)
    requires
        ms.len() == delivered.len(),
    ensures
        kept_monitors(ms, delivered).len() == count_true(delivered),
        forall|i: int|
            0 <= i < ms.len() && #[trigger] delivered[i] ==> kept_monitors(ms, delivered).contains(
                ms[i],
            ),
        forall|j: int|
            0 <= j < kept_monitors(ms, delivered).len() ==> is_delivered_monitor(
                ms,
                delivered,
                #[trigger] kept_monitors(ms, delivered)[j],
            ),
    decreases ms.len(),
{
    if ms.len() > 0 {
        let n = ms.len() - 1;
        let before = kept_monitors(ms.take(n), delivered.take(n));
        retain_monitors_law(ms.take(n), delivered.take(n));
        assert(delivered.take(n) =~= delivered.drop_last());
        let kept = kept_monitors(ms, delivered);
        assert(kept == (if delivered[n] { before.push(ms[n]) } else { before }));
        assert forall|i: int| 0 <= i < ms.len() && #[trigger] delivered[i] implies kept.contains(ms[i]) by {
            if i < n {
                assert(delivered.take(n)[i] == delivered[i]);
                assert(ms.take(n)[i] == ms[i]);
                let k = choose|k: int| 0 <= k < before.len() && before[k] == ms[i];
                assert(kept[k] == ms[i]);
            } else {
                assert(kept[kept.len() - 1] == ms[i]);
            }
        }
        assert forall|j: int| 0 <= j < kept.len() implies is_delivered_monitor(
            ms,
            delivered,
            #[trigger] kept[j],
        ) by {
            if j < before.len() {
                assert(is_delivered_monitor(ms.take(n), delivered.take(n), before[j]));
                let i = choose|i: int|
                    0 <= i < ms.take(n).len() && delivered.take(n)[i] && ms.take(n)[i] == before[j];
                assert(ms.take(n)[i] == ms[i]);
                assert(delivered.take(n)[i] == delivered[i]);
                assert(kept[j] == before[j]);
            } else {
                assert(delivered[n] && ms[n] == kept[j]);
            }
        }
    }
}

/// The report lines give the number of device messages recorded and the
/// number of monitors in decimal, and one line per known device between
/// a header and a footer.
pub proof fn status_counts_law(b: &BrokerState)
    requires
        b.wf(),
    ensures
        b.status_text().len() == b.health_ids().len() + 4,
        exists|digits: Seq<char>|
            {
                &&& b.status_text()[1] == "  Messages routed : "@ + digits
                &&& forall|k: int| 0 <= k < digits.len() ==> is_digit(#[trigger] digits[k])
                &&& #[trigger] spelled_number(digits) == b.routed_count()
            },
        exists|digits: Seq<char>|
            {
                &&& b.status_text()[2] == "  Monitors connected : "@ + digits
                &&& forall|k: int| 0 <= k < digits.len() ==> is_digit(#[trigger] digits[k])
                &&& #[trigger] spelled_number(digits) == b.monitor_list().len()
            },
        forall|i: int|
            0 <= i < b.health_ids().len() ==> b.status_text()[3 + i] == device_line(
                #[trigger] b.health_ids()[i],
                b.health_records()[i],
            ),
{
    decimal_law(b.routed_count() as nat);
    decimal_law(b.monitor_list().len());
    let c = decimal(b.routed_count() as nat);
    let m = decimal(b.monitor_list().len());
    assert(b.status_text()[1] == "  Messages routed : "@ + c);
    assert(b.status_text()[2] == "  Monitors connected : "@ + m);
}

/// What a watchdog tick reports: a change for every device whose record it
/// changes in a way worth reporting, and nothing else.
pub proof fn tick_reports_law(ids: Seq<Seq<char>>, hs: Seq<DeviceHealth>, now: u64)
    requires
        ids.len() == hs.len(),
    ensures
        forall|i: int|
            0 <= i < hs.len() && (#[trigger] tick_change(hs[i], now)) is Some ==> tick_reports(
                ids,
                hs,
                now,
            ).contains((ids[i], tick_change(hs[i], now)->0)),
        forall|j: int|
            0 <= j < tick_reports(ids, hs, now).len() ==> exists|i: int|
                0 <= i < hs.len() && ids[i] == (#[trigger] tick_reports(ids, hs, now)[j]).0
                    && tick_change(hs[i], now) == Some(tick_reports(ids, hs, now)[j].1),
    decreases hs.len(),
{
    if hs.len() > 0 {
        let n = hs.len() - 1;
        tick_reports_law(ids.take(n), hs.take(n), now);
        let before = tick_reports(ids.take(n), hs.take(n), now);
        let all = tick_reports(ids, hs, now);
        assert forall|i: int|
            0 <= i < hs.len() && (#[trigger] tick_change(hs[i], now)) is Some implies all.contains(
            (ids[i], tick_change(hs[i], now)->0),
        ) by {
            if i < n {
                assert(hs.take(n)[i] == hs[i]);
                assert(ids.take(n)[i] == ids[i]);
                let k = choose|k: int|
                    0 <= k < before.len() && before[k] == (ids[i], tick_change(hs[i], now)->0);
                assert(all[k] == before[k]);
            } else {
                assert(all[all.len() - 1] == (ids[i], tick_change(hs[i], now)->0));
            }
        }
        assert forall|j: int| #![trigger all[j]] 0 <= j < all.len() implies exists|i: int|
            0 <= i < hs.len() && ids[i] == (#[trigger] all[j]).0 && tick_change(hs[i], now) == Some(
                all[j].1,
            ) by {
            if j < before.len() {
                let i = choose|i: int|
                    0 <= i < hs.take(n).len() && ids.take(n)[i] == (#[trigger] before[j]).0
                        && tick_change(hs.take(n)[i], now) == Some(before[j].1);
                assert(all[j] == before[j]);
                assert(ids[i] == all[j].0 && tick_change(hs[i], now) == Some(all[j].1));
            } else {
                assert(ids[n] == all[j].0 && tick_change(hs[n], now) == Some(all[j].1));
            }
        }
    }
}


/// A heartbeat recorded at `t1`, then a watchdog tick at a time no earlier
/// than any the broker has acted at: the device keeps `t1` as its last
/// heartbeat; it is degraded, and reported with the whole seconds of its
/// silence, exactly when the tick comes at least 3 s after the heartbeat;
/// otherwise it stays nominal and no report names it.
pub proof fn heartbeat_then_watchdog_law(
    b0: &BrokerState,
    b1: &BrokerState,
    b2: &BrokerState,
    id: Seq<char>,
    t1: u64,
    back: Option<DeviceState>,
    t2: u64,
    reports: Seq<(Seq<char>, HealthChange)>,
)
    requires
        b0.wf(),
        b1.wf(),
        b0.records(b1, id, MsgType::Heartbeat, t1, back),
        t1 <= b1.clock_time(),
        t2 >= b1.clock_time(),
        b1.ticks(b2, t2, reports),
    ensures
        t1 <= t2,
        exists|i: int| 0 <= i < b2.health_ids().len() && b2.health_ids()[i] == id,
        forall|i: int|
            0 <= i < b2.health_ids().len() && b2.health_ids()[i] == id ==> {
                &&& (#[trigger] b2.health_records()[i]).last_heartbeat == t1
                &&& t2 - t1 < 3_000_000_000 ==> b2.health_records()[i].state == DeviceState::Nominal
                &&& t2 - t1 >= 3_000_000_000 ==> b2.health_records()[i].state == (
                DeviceState::Degraded { missed: 1 })
            },
        t2 - t1 >= 3_000_000_000 ==> reports.contains(
            (id, HealthChange::Degraded { silent_secs: ((t2 - t1) / 1_000_000_000) as u64 }),
        ),
        t2 - t1 < 3_000_000_000 ==> forall|k: int| 0 <= k < reports.len() ==> (#[trigger] reports[k]).0 != id,
{
    heartbeat_recovery_law(b0, b1, id, t1, back);
    let i = choose|i: int| 0 <= i < b1.health_ids().len() && b1.health_ids()[i] == id;
    let h = b1.health_records()[i];
    assert(h.state == DeviceState::Nominal && h.last_heartbeat == t1);
    assert(b2.health_ids()[i] == id);
    assert(b2.health_records()[i] == ticked(h, t2));
    assert(silent_secs(t2, t1) == ((t2 - t1) / 1_000_000_000) as u64);
    assert(t2 - t1 >= 3_000_000_000 <==> (t2 - t1) / 1_000_000_000 >= 3);
    assert forall|k: int|
        0 <= k < b2.health_ids().len() && b2.health_ids()[k] == id implies k == i by {
        if k != i {
            assert(b1.health_ids()[k] == b2.health_ids()[k]);
        }
    }
    tick_reports_law(b1.health_ids(), b1.health_records(), t2);
    if t2 - t1 < 3_000_000_000 {
        assert forall|k: int| 0 <= k < reports.len() implies (#[trigger] reports[k]).0 != id by {
            if reports[k].0 == id {
                let j = choose|j: int|
                    0 <= j < b1.health_records().len() && b1.health_ids()[j] == reports[k].0
                        && tick_change(b1.health_records()[j], t2) == Some(reports[k].1);
                assert(j == i);
            }
        }
    } else {
        assert(tick_change(h, t2) is Some);
    }
}

} // verus!
