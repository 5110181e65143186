use ipc_broker::clock::Clock;
use ipc_broker::health::{elapsed_secs, DeviceHealth, DeviceState, HealthChange};
use ipc_broker::message::MsgType;

/// Milliseconds as nanosecond readings of the broker's clock.
fn ms(v: u64) -> u64 {
    v * 1_000_000
}

fn record(state: DeviceState, last: u64, faults: u32) -> DeviceHealth {
    DeviceHealth { state, last_heartbeat: last, fault_count: faults }
}

#[test]
fn state_text_nominal() {
    assert_eq!(DeviceState::Nominal.to_string(), "NOMINAL");
}

#[test]
fn state_text_degraded() {
    assert_eq!(DeviceState::Degraded { missed: 2 }.to_string(), "DEGRADED(missed=2)");
    assert_eq!(DeviceState::Degraded { missed: 0 }.to_string(), "DEGRADED(missed=0)");
    assert_eq!(DeviceState::Degraded { missed: 4096 }.to_string(), "DEGRADED(missed=4096)");
    assert_eq!(
        DeviceState::Degraded { missed: u32::MAX }.to_string(),
        "DEGRADED(missed=4294967295)"
    );
}

#[test]
fn state_text_faulted_and_recovering() {
    assert_eq!(DeviceState::Faulted.to_string(), "FAULTED");
    assert_eq!(DeviceState::Recovering.to_string(), "RECOVERING");
}

#[test]
fn record_started_at_given_time() {
    assert_eq!(DeviceHealth::started_at(ms(42)), record(DeviceState::Nominal, ms(42), 0));
    assert_eq!(elapsed_secs(3_000_100_000, 600_000), 2);
}

#[test]
fn new_record_is_nominal() {
    let clock = Clock::start();
    let h = DeviceHealth::new(&clock);
    assert_eq!(h.state, DeviceState::Nominal);
    assert_eq!(h.fault_count, 0);
}

#[test]
fn elapsed_is_whole_seconds_and_saturates() {
    assert_eq!(elapsed_secs(ms(5_999), ms(1_000)), 4);
    assert_eq!(elapsed_secs(ms(1_000), ms(1_000)), 0);
    assert_eq!(elapsed_secs(ms(500), ms(1_000)), 0);
    assert_eq!(elapsed_secs(ms(4_000), ms(1_000)), 3);
}

#[test]
fn heartbeat_recovers_any_state() {
    for state in [
        DeviceState::Degraded { missed: 3 },
        DeviceState::Faulted,
        DeviceState::Recovering,
    ] {
        let mut h = record(state, ms(100), 2);
        let back = h.receive(MsgType::Heartbeat, ms(9_000));
        assert_eq!(back, Some(state));
        assert_eq!(h, record(DeviceState::Nominal, ms(9_000), 2));
    }
    let mut h = record(DeviceState::Nominal, ms(100), 0);
    assert_eq!(h.receive(MsgType::Heartbeat, ms(700)), None);
    assert_eq!(h, record(DeviceState::Nominal, ms(700), 0));
}

#[test]
fn other_messages_leave_record() {
    for t in [MsgType::Telemetry, MsgType::Fault, MsgType::Command] {
        let mut h = record(DeviceState::Faulted, ms(100), 1);
        assert_eq!(h.receive(t, ms(50_000)), None);
        assert_eq!(h, record(DeviceState::Faulted, ms(100), 1));
    }
}

#[test]
fn nominal_tick_below_three_seconds() {
    let mut h = record(DeviceState::Nominal, ms(1_000), 0);
    assert_eq!(h.tick(ms(3_999)), None);
    assert_eq!(h, record(DeviceState::Nominal, ms(1_000), 0));
}

#[test]
fn nominal_tick_at_three_seconds_degrades() {
    let mut h = record(DeviceState::Nominal, ms(1_000), 0);
    assert_eq!(h.tick(ms(4_000)), Some(HealthChange::Degraded { silent_secs: 3 }));
    assert_eq!(h, record(DeviceState::Degraded { missed: 1 }, ms(1_000), 0));
}

#[test]
fn degraded_tick_counts_misses_then_faults() {
    let mut h = record(DeviceState::Degraded { missed: 1 }, ms(0), 4);
    assert_eq!(h.tick(ms(5_999)), None);
    assert_eq!(h, record(DeviceState::Degraded { missed: 2 }, ms(0), 4));
    assert_eq!(h.tick(ms(6_000)), Some(HealthChange::Faulted { fault_count: 5 }));
    assert_eq!(h, record(DeviceState::Faulted, ms(0), 5));
}

#[test]
fn faulted_then_recovering_then_waits() {
    let mut h = record(DeviceState::Faulted, ms(0), 1);
    assert_eq!(h.tick(ms(1)), Some(HealthChange::Recovering));
    assert_eq!(h.state, DeviceState::Recovering);
    assert_eq!(h.tick(ms(1_000_000)), None);
    assert_eq!(h, record(DeviceState::Recovering, ms(0), 1));
}

#[test]
fn escalation_scenario() {
    let mut h = record(DeviceState::Nominal, ms(10_000), 0);
    assert_eq!(h.tick(ms(11_000)), None);
    assert_eq!(h.tick(ms(13_000)), Some(HealthChange::Degraded { silent_secs: 3 }));
    assert_eq!(h.tick(ms(14_000)), None);
    assert_eq!(h.state, DeviceState::Degraded { missed: 2 });
    assert_eq!(h.tick(ms(16_000)), Some(HealthChange::Faulted { fault_count: 1 }));
    assert_eq!(h.tick(ms(17_000)), Some(HealthChange::Recovering));
    assert_eq!(h.tick(ms(30_000)), None);
    assert_eq!(h.receive(MsgType::Heartbeat, ms(31_000)), Some(DeviceState::Recovering));
    assert_eq!(h, record(DeviceState::Nominal, ms(31_000), 1));
}
